//! The built-ins: what each does when called.

use vstd::prelude::*;
use vstd::string::*;
use std::sync::Arc;
use crate::errors::{Error, ErrorKind};
use crate::number::whole;
use crate::runtime::paint::{blue, cyan, dimmed, green, magenta, yellow};
use crate::runtime::scope::{Scope, ScopeView};
use crate::runtime::semantics::{
    call, converted, display, display_fields, function_text, indexed, labels, method_for, native,
    pretty, pretty_field, pretty_fields, render, type_label, variable, Rendered,
};
use crate::runtime::session::{Session, SessionView};
use crate::runtime::types::function::{Function, Native};
use crate::runtime::types::{fields_view, ContextualValue, Value, ValueType, ValueView};
use crate::runtime::{call_function, called, values_view, Host};
use crate::sitter::{Span, SpanView};
use crate::text::{join2, join3};

verus! {

/// Text, or an error, and the run that making it left.
pub open spec fn rendered(r: Result<String, Error>, ses: &Session) -> Rendered {
    Rendered {
        result: match r {
            Ok(text) => Ok(text@),
            Err(e) => Err(e.view()),
        },
        session: ses.view(),
    }
}

/// The name by which a type is shown.
pub fn label_of(t: &ValueType) -> (r: String)
    ensures
        r@ == type_label(t.view()),
{
    match t {
        ValueType::Number => "Number".to_owned(),
        ValueType::String => "String".to_owned(),
        ValueType::Boolean => "Boolean".to_owned(),
        ValueType::StructInstance(_) => "StructInstance".to_owned(),
        ValueType::Function(_) => "Function".to_owned(),
        ValueType::Undefined => "Undefined".to_owned(),
        ValueType::This => "Self".to_owned(),
        ValueType::Any => "Any".to_owned(),
        ValueType::Implements(_) => "Implements".to_owned(),
        ValueType::Export(name) => join3("Export(", name.as_str(), ")"),
    }
}

/// The text for a function: its kind, the types of its parameters, and the
/// type it returns.
pub fn function_label(f: &Function) -> (r: String)
    ensures
        r@ == function_text(f.view()),
{
    let outline = f.outline();
    let mut out = match f {
        Function::Basic(_) => "[Function (".to_owned(),
        Function::Builtin(_) => "[Builtin Function (".to_owned(),
    };
    let ghost head = out@;
    let ghost inputs = outline.view().inputs;
    let mut i: usize = 0;
    assert(out@ =~= head + labels(inputs, 0));
    while i < outline.inputs.len()
        invariant
            i <= outline.inputs.len(),
            inputs == outline.view().inputs,
            inputs.len() == outline.inputs.len(),
            out@ == head + labels(inputs, i as nat),
        decreases outline.inputs.len() - i,
    {
        let label = label_of(&outline.inputs[i].1);
        assert(inputs[i as int].1 == outline.inputs@[i as int].1.view());
        if i > 0 {
            out.append(", ");
        }
        out.append(label.as_str());
        i = i + 1;
        assert(out@ =~= head + labels(inputs, i as nat));
    }
    out.append(") -> ");
    match &outline.returns {
        Some(t) => {
            let label = label_of(t);
            out.append(label.as_str());
        },
        None => {
            out.append("void");
        },
    }
    out.append("]");
    assert(out@ =~= function_text(f.view()));
    out
}

/// The text for a value.
pub fn display_value<H: Host>(host: &H, v: &Value) -> (r: String)
    ensures
        r@ == display(host, v.view()),
    decreases v,
{
    match v {
        Value::Number(bits) => host.number_text(*bits),
        Value::String(text) => text.clone(),
        Value::Boolean(b) => if *b {
            "true".to_owned()
        } else {
            "false".to_owned()
        },
        Value::StructInstance(def, fields) => {
            let mut out = join2(def.name.as_str(), " {");
            let inner = display_fields_value(host, fields);
            out.append(inner.as_str());
            out.append("}");
            out
        },
        Value::Function(f) => function_label(f),
        Value::Undefined => "[Undefined]".to_owned(),
        Value::External(name, _) => join3("[Export ", name.as_str(), "]"),
        Value::Return(inner) => display_value(host, inner),
    }
}

/// The text for the fields of a struct instance.
pub fn display_fields_value<H: Host>(host: &H, fields: &Vec<(String, Value)>) -> (r: String)
    ensures
        r@ == display_fields(host, fields_view(fields@), fields@.len()),
    decreases fields,
{
    let mut out = String::new();
    let ghost views = fields_view(fields@);
    let mut i: usize = 0;
    assert(out@ =~= display_fields(host, views, 0));
    while i < fields.len()
        invariant
            i <= fields.len(),
            views == fields_view(fields@),
            out@ == display_fields(host, views, i as nat),
        decreases fields.len() - i,
    {
        let text = display_value(host, &fields[i].1);
        assert(views[i as int] == (fields@[i as int].0@, fields@[i as int].1.view()));
        let ghost before = out@;
        if i > 0 {
            out.append(", ");
        }
        out.append(fields[i].0.as_str());
        out.append(": ");
        out.append(text.as_str());
        i = i + 1;
        assert(out@ =~= before + (if i > 1 {
            ", "@
        } else {
            Seq::empty()
        }) + views[i - 1].0 + ": "@ + text@);
    }
    out
}

/// The value of the variable `name`, the value of no value where it is not
/// bound.
pub fn value_of(s: &Scope, name: &str) -> (r: Value)
    ensures
        r.view() == variable(s.view(), name@),
{
    match s.get(name) {
        Some(v) => (*v).clone(),
        None => Value::Undefined,
    }
}

/// The method `method` of the first implementation for `v` of the trait
/// named `name`.
pub fn find_method(s: &Scope, v: &Value, name: &str, method: &str) -> (r: Option<Arc<Function>>)
    ensures
        match r {
            Some(f) => method_for(s.view(), v.view(), name@, method@) == Some(f.view()),
            None => method_for(s.view(), v.view(), name@, method@) is None,
        },
{
    match s.get_trait_for(v.clone(), name) {
        Some(inst) => inst.get_function(method),
        None => None,
    }
}

/// The text that the conversion `f` makes of `v`.
pub(crate) fn convert<H: Host>(
    host: &H,
    f: &Arc<Function>,
    v: &Value,
    s: &Scope,
    session: &mut Session,
    depth: usize,
) -> (r: Result<String, Error>)
    ensures
        rendered(r, final(session)) == converted(
            host,
            f.view(),
            v.view(),
            s.view(),
            old(session).view(),
            depth as nat,
        ),
        final(session).limit() == old(session).limit(),
    decreases depth, 4nat, 0nat,
{
    proof {
        reveal(converted);
        reveal(call);
    }
    if depth == 0 {
        return Err(
            Error::runtime(
                ErrorKind::DepthExceeded,
                "Nested too deep".to_owned(),
                &Span::anonymous(),
            ),
        );
    }
    let mut args: Vec<ContextualValue> = Vec::new();
    args.push(v.clone().anonymous());
    assert(values_view(args@) =~= seq![(v.view(), SpanView::anonymous())]);
    match call_function(host, f, s, args, session, depth - 1) {
        Err(e) => Err(e),
        Ok(Some(ContextualValue(Value::String(text), _))) => Ok(text),
        Ok(_) => Ok(display_value(host, v)),
    }
}

/// The text that a value is printed as.
pub(crate) fn render_value<H: Host>(
    host: &H,
    v: &Value,
    s: &Scope,
    session: &mut Session,
    depth: usize,
) -> (r: Result<String, Error>)
    ensures
        rendered(r, final(session)) == render(
            host,
            v.view(),
            s.view(),
            old(session).view(),
            depth as nat,
        ),
        final(session).limit() == old(session).limit(),
    decreases depth, 5nat, 0nat,
{
    proof {
        reveal(render);
        reveal(converted);
    }
    let ghost ses0 = session.view();
    match find_method(s, v, "ToPretty", "to_pretty") {
        Some(f) => {
            convert(host, &f, v, s, session, depth)
        },
        None => match find_method(s, v, "ToString", "to_string") {
            Some(f) => convert(host, &f, v, s, session, depth),
            None => {
                let text = display_value(host, v);
                let r = join3("[Debug: ", text.as_str(), "]");
                Ok(r)
            },
        },
    }
}

/// The coloured text of a field's value.
pub(crate) fn pretty_field_value<H: Host>(
    host: &H,
    v: &Value,
    s: &Scope,
    session: &mut Session,
    depth: usize,
) -> (r: Result<String, Error>)
    ensures
        rendered(r, final(session)) == pretty_field(
            host,
            v.view(),
            s.view(),
            old(session).view(),
            depth as nat,
        ),
        final(session).limit() == old(session).limit(),
    decreases depth, 5nat, 0nat,
{
    proof {
        reveal(pretty_field);
        reveal(converted);
    }
    match find_method(s, v, "ToPretty", "to_pretty") {
        Some(f) => convert(host, &f, v, s, session, depth),
        None => Ok(display_value(host, v)),
    }
}

/// The coloured text of the fields of a struct instance.
pub(crate) fn pretty_fields_value<H: Host>(
    host: &H,
    fields: &Vec<(String, Value)>,
    s: &Scope,
    session: &mut Session,
    depth: usize,
) -> (r: Result<String, Error>)
    ensures
        rendered(r, final(session)) == pretty_fields(
            host,
            fields_view(fields@),
            fields@.len(),
            s.view(),
            old(session).view(),
            depth as nat,
        ),
        final(session).limit() == old(session).limit(),
    decreases depth, 6nat, 0nat,
{
    proof {
        reveal(pretty_fields);
        reveal(pretty_field);
    }
    let ghost views = fields_view(fields@);
    let ghost start = session.view();
    let mut out = String::new();
    let mut i: usize = 0;
    while i < fields.len()
        invariant
            i <= fields.len(),
            views == fields_view(fields@),
            session.limit() == old(session).limit(),
            start == old(session).view(),
            pretty_fields(host, views, i as nat, s.view(), start, depth as nat) == (Rendered {
                result: Ok(out@),
                session: session.view(),
            }),
        decreases fields.len() - i,
    {
        assert(views[i as int] == (fields@[i as int].0@, fields@[i as int].1.view()));
        let ghost before = out@;
        proof {
            reveal(pretty_fields);
            reveal(pretty_field);
        }
        match pretty_field_value(host, &fields[i].1, s, session, depth) {
            Err(e) => {
                proof {
                    lemma_pretty_fields_fails(
                        host,
                        views,
                        (i + 1) as nat,
                        fields@.len(),
                        s.view(),
                        start,
                        depth as nat,
                    );
                }
                return Err(e);
            },
            Ok(text) => {
                if i > 0 {
                    out.append(", ");
                }
                out.append(fields[i].0.as_str());
                out.append(": ");
                out.append(text.as_str());
                assert(out@ =~= before + (if i + 1 > 1 {
                    ", "@
                } else {
                    Seq::empty()
                }) + views[i as int].0 + ": "@ + text@);
            },
        }
        i = i + 1;
    }
    Ok(out)
}

/// Once the text of some fields has failed, the text of more fields fails in
/// the same way.
pub proof fn lemma_pretty_fields_fails<H: Host>(
    host: &H,
    fields: Seq<(Seq<char>, ValueView)>,
    n: nat,
    m: nat,
    s: ScopeView,
    ses: SessionView,
    depth: nat,
)
    requires
        n <= m <= fields.len(),
        pretty_fields(host, fields, n, s, ses, depth).result is Err,
    ensures
        pretty_fields(host, fields, m, s, ses, depth) == pretty_fields(host, fields, n, s, ses, depth),
    decreases m,
{
    reveal(pretty_fields);
    if n < m {
        lemma_pretty_fields_fails(host, fields, n, (m - 1) as nat, s, ses, depth);
    }
}

/// The coloured text of a value.
pub(crate) fn pretty_value<H: Host>(
    host: &H,
    v: &Value,
    s: &Scope,
    session: &mut Session,
    depth: usize,
) -> (r: Result<String, Error>)
    ensures
        rendered(r, final(session)) == pretty(
            host,
            v.view(),
            s.view(),
            old(session).view(),
            depth as nat,
        ),
        final(session).limit() == old(session).limit(),
    decreases depth, 7nat, 0nat,
{
    proof {
        reveal(pretty);
        reveal(pretty_fields);
    }
    match v {
        Value::Number(bits) => {
            let text = host.number_text(*bits);
            Ok(yellow(text.as_str()))
        },
        Value::Boolean(b) => Ok(
            green(
                if *b {
                    "true"
                } else {
                    "false"
                },
            ),
        ),
        Value::String(text) => {
            let quoted = join3("\"", text.as_str(), "\"");
            Ok(cyan(quoted.as_str()))
        },
        Value::StructInstance(def, fields) => {
            match pretty_fields_value(host, fields, s, session, depth) {
                Err(e) => Err(e),
                Ok(body) => {
                    let mut out = join2(def.name.as_str(), " ");
                    let open = blue("{");
                    let close = blue("}");
                    out.append(open.as_str());
                    out.append(" ");
                    out.append(body.as_str());
                    out.append(" ");
                    out.append(close.as_str());
                    Ok(out)
                },
            }
        },
        Value::Function(f) => {
            let text = function_label(f);
            Ok(magenta(text.as_str()))
        },
        Value::Undefined => Ok(dimmed("null")),
        _ => Ok(display_value(host, v)),
    }
}

/// Runs the built-in `handler` in the scope `s` of its call.
pub(crate) fn run_native<H: Host>(
    host: &H,
    handler: Native,
    s: &Scope,
    session: &mut Session,
    depth: usize,
) -> (r: Result<Option<ContextualValue>, Error>)
    ensures
        called(r, final(session)) == native(
            host,
            handler,
            s.view(),
            old(session).view(),
            depth as nat,
        ),
        final(session).limit() == old(session).limit(),
    decreases depth, 8nat, 0nat,
{
    proof {
        reveal(native);
        reveal(render);
        reveal(pretty);
    }
    match handler {
        Native::Print => {
            let value = value_of(s, "value");
            match render_value(host, &value, s, session, depth) {
                Err(e) => Err(e),
                Ok(text) => {
                    session.print(text);
                    Ok(None)
                },
            }
        },
        Native::ToString => {
            let value = value_of(s, "self");
            Ok(Some(Value::String(display_value(host, &value)).anonymous()))
        },
        Native::ToPretty => {
            let value = value_of(s, "self");
            match pretty_value(host, &value, s, session, depth) {
                Err(e) => Err(e),
                Ok(text) => Ok(Some(Value::String(text).anonymous())),
            }
        },
        Native::AddString => {
            let left = value_of(s, "left");
            let right = value_of(s, "right");
            let sum = match (&left, &right) {
                (Value::String(a), Value::String(b)) => Value::String(join2(a.as_str(), b.as_str())),
                _ => Value::Undefined,
            };
            Ok(Some(sum.anonymous()))
        },
        Native::AddNumber => {
            let left = value_of(s, "left");
            let right = value_of(s, "right");
            let sum = match (&left, &right) {
                (Value::Number(a), Value::Number(b)) => Value::Number(host.add_numbers(*a, *b)),
                _ => Value::Undefined,
            };
            Ok(Some(sum.anonymous()))
        },
        Native::IndexString => {
            let text = value_of(s, "self");
            let index = value_of(s, "index");
            let found = match (&text, &index) {
                (Value::String(t), Value::Number(bits)) => character_at(t.as_str(), *bits),
                _ => Value::Undefined,
            };
            Ok(Some(found.anonymous()))
        },
        Native::CurrentUnix => Ok(Some(Value::Number(session.clock()).anonymous())),
    }
}

/// The character of `text` at the place that the number `bits` gives, counted
/// from 1, as text.
pub fn character_at(text: &str, bits: u64) -> (r: Value)
    ensures
        r.view() == indexed(text@, bits),
{
    match whole(bits) {
        None => Value::Undefined,
        Some(i) => {
            let n = text.unicode_len();
            if 1 <= i && i <= n as u64 {
                let place = (i - 1) as usize;
                let piece = text.substring_char(place, place + 1).to_owned();
                assert(piece@ =~= seq![text@[i - 1]]);
                Value::String(piece)
            } else {
                Value::Undefined
            }
        },
    }
}

} // verus!
