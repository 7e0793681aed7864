//! Rendering alerts as JSON text, verified down to the characters: string
//! escaping, decimal numerals, and the alert document's exact shape. The
//! embedding program publishes these bytes as they are.

use vstd::prelude::*;
use vstd::string::StrSliceExecFns;
use crate::alerts::Alert;
use crate::hashing::hex_digit;
use crate::rules::Severity;
use crate::text::{dec_i64, dec_u64, i64_to_string, push_char, u64_to_string};
use crate::value::{
    ValModel, Value, lemma_fields_model_index, lemma_vals_model_index, val_model, vals_model,
    fields_model,
};

verus! {

/// How one character stands inside a JSON string: quote and backslash
/// escaped, the named controls by letter, other controls as `\u00XX`,
/// everything else as itself.
pub open spec fn esc_char(c: char) -> Seq<char> {
    if c == '"' {
        seq!['\\', '"']
    } else if c == '\\' {
        seq!['\\', '\\']
    } else if c == '\n' {
        seq!['\\', 'n']
    } else if c == '\r' {
        seq!['\\', 'r']
    } else if c == '\t' {
        seq!['\\', 't']
    } else if (c as int) < 32 {
        seq!['\\', 'u', '0', '0', hex_digit(c as int / 16), hex_digit(c as int % 16)]
    } else {
        seq![c]
    }
}

/// A string's characters, each escaped.
pub open spec fn esc_str(s: Seq<char>) -> Seq<char>
    decreases s.len(),
{
    if s.len() == 0 {
        Seq::empty()
    } else {
        esc_char(s[0]) + esc_str(s.drop_first())
    }
}

/// A JSON string literal: the escaped text between quotes.
pub open spec fn json_str(s: Seq<char>) -> Seq<char> {
    seq!['"'] + esc_str(s) + seq!['"']
}

/// The JSON text of a value.
pub open spec fn json_of(v: ValModel) -> Seq<char>
    decreases v, 0int,
    via json_of_dec
{
    match v {
        ValModel::Null => "null"@,
        ValModel::Bool(b) => if b {
            "true"@
        } else {
            "false"@
        },
        ValModel::Int(n) => dec_i64(n as int),
        ValModel::Str(s) => json_str(s),
        ValModel::Arr(items) => seq!['['] + json_list(items) + seq![']'],
        ValModel::Obj(fields) => seq!['{'] + json_fields(fields) + seq!['}'],
    }
}

/// The elements of an array, comma-separated.
pub open spec fn json_list(items: Seq<ValModel>) -> Seq<char>
    decreases items, 1int,
    via json_list_dec
{
    if items.len() == 0 {
        Seq::empty()
    } else if items.len() == 1 {
        json_of(items[0])
    } else {
        json_of(items[0]) + seq![','] + json_list(items.drop_first())
    }
}

/// The fields of an object, comma-separated `"key":value` pairs.
pub open spec fn json_fields(fields: Seq<(Seq<char>, ValModel)>) -> Seq<char>
    decreases fields, 1int,
    via json_fields_dec
{
    if fields.len() == 0 {
        Seq::empty()
    } else if fields.len() == 1 {
        json_str(fields[0].0) + seq![':'] + json_of(fields[0].1)
    } else {
        json_str(fields[0].0) + seq![':'] + json_of(fields[0].1) + seq![','] + json_fields(
            fields.drop_first(),
        )
    }
}

#[via_fn]
proof fn json_of_dec(v: ValModel) {
    match v {
        ValModel::Arr(items) => {
            assert(decreases_to!(v => v->Arr_0));
        },
        ValModel::Obj(fields) => {
            assert(decreases_to!(v => v->Obj_0));
        },
        _ => {},
    }
}

#[via_fn]
proof fn json_list_dec(items: Seq<ValModel>) {
    if items.len() > 1 {
        vstd::seq::axiom_seq_subrange_decreases(items, 1, items.len() as int);
        assert(items.subrange(1, items.len() as int) == items.drop_first());
    }
}

#[via_fn]
proof fn json_fields_dec(fields: Seq<(Seq<char>, ValModel)>) {
    if fields.len() > 0 {
        assert(decreases_to!(fields => fields[0]));
        assert(decreases_to!(fields[0] => fields[0].1));
    }
    if fields.len() > 1 {
        vstd::seq::axiom_seq_subrange_decreases(fields, 1, fields.len() as int);
        assert(fields.subrange(1, fields.len() as int) == fields.drop_first());
    }
}

proof fn lemma_esc_str_snoc(s: Seq<char>, i: int)
    requires
        0 <= i < s.len(),
    ensures
        esc_str(s.take(i + 1)) == esc_str(s.take(i)) + esc_char(s[i]),
    decreases i,
{
    if i == 0 {
        assert(s.take(1)[0] == s[0]);
        assert(s.take(1).drop_first() =~= Seq::<char>::empty());
        assert(s.take(0) =~= Seq::<char>::empty());
        assert(esc_str(s.take(1)) =~= esc_str(s.take(0)) + esc_char(s[0]));
    } else {
        lemma_esc_str_snoc(s.drop_first(), i - 1);
        assert(s.take(i + 1)[0] == s[0]);
        assert(s.take(i + 1).drop_first() =~= s.drop_first().take(i));
        assert(s.take(i)[0] == s[0]);
        assert(s.take(i).drop_first() =~= s.drop_first().take(i - 1));
        assert(s.drop_first()[i - 1] == s[i]);
        assert(esc_str(s.take(i + 1)) =~= esc_str(s.take(i)) + esc_char(s[i]));
    }
}

/// Appends `s`, escaped, to `out`.
fn append_escaped(out: &mut String, s: &str)
    ensures
        final(out)@ == old(out)@ + esc_str(s@),
{
    let n = s.unicode_len();
    let mut i: usize = 0;
    proof {
        assert(s@.take(0) =~= Seq::<char>::empty());
        assert(old(out)@ + esc_str(s@.take(0)) =~= old(out)@);
    }
    while i < n
        invariant
            i <= n,
            n == s@.len(),
            out@ == old(out)@ + esc_str(s@.take(i as int)),
        decreases n - i,
    {
        let c = s.get_char(i);
        if c == '"' {
            push_char(out, '\\');
            push_char(out, '"');
        } else if c == '\\' {
            push_char(out, '\\');
            push_char(out, '\\');
        } else if c == '\n' {
            push_char(out, '\\');
            push_char(out, 'n');
        } else if c == '\r' {
            push_char(out, '\\');
            push_char(out, 'r');
        } else if c == '\t' {
            push_char(out, '\\');
            push_char(out, 't');
        } else if (c as u32) < 32 {
            let b = c as u8;
            push_char(out, '\\');
            push_char(out, 'u');
            push_char(out, '0');
            push_char(out, '0');
            push_char(out, hex_char(b / 16));
            push_char(out, hex_char(b % 16));
        } else {
            push_char(out, c);
        }
        proof {
            lemma_esc_str_snoc(s@, i as int);
            assert(out@ =~= old(out)@ + esc_str(s@.take(i + 1)));
        }
        i = i + 1;
    }
    proof {
        assert(s@.take(n as int) =~= s@);
    }
}

fn hex_char(d: u8) -> (c: char)
    requires
        d < 16,
    ensures
        c == hex_digit(d as int),
{
    if d < 10 {
        (48u8 + d) as char
    } else {
        (87u8 + d) as char
    }
}

/// Appends `s` as a JSON string literal to `out`.
fn append_json_string(out: &mut String, s: &str)
    ensures
        final(out)@ == old(out)@ + json_str(s@),
{
    push_char(out, '"');
    append_escaped(out, s);
    push_char(out, '"');
    proof {
        assert(out@ =~= old(out)@ + json_str(s@));
    }
}

/// Appends a value's JSON text to `out`.
fn append_json_value(out: &mut String, v: &Value)
    ensures
        final(out)@ == old(out)@ + json_of(val_model(*v)),
    decreases v,
{
    match v {
        Value::Null => {
            out.append("null");
        },
        Value::Bool(b) => {
            if *b {
                out.append("true");
            } else {
                out.append("false");
            }
        },
        Value::Int(n) => {
            let t = i64_to_string(*n);
            out.append(t.as_str());
        },
        Value::Str(s) => {
            append_json_string(out, s.as_str());
        },
        Value::Arr(items) => {
            proof {
                lemma_vals_model_index(items@);
            }
            push_char(out, '[');
            let ghost base = out@;
            let n = items.len();
            let mut i: usize = 0;
            proof {
                assert(vals_model(items@).take(0) =~= Seq::<ValModel>::empty());
            }
            while i < n
                invariant
                    i <= n,
                    n == items.len(),
                    *v == Value::Arr(*items),
                    vals_model(items@).len() == n,
                    forall|j: int|
                        0 <= j < n ==> #[trigger] vals_model(items@)[j] == val_model(items@[j]),
                    out@ == base + json_list(vals_model(items@).take(i as int)),
                decreases n - i,
            {
                if i > 0 {
                    push_char(out, ',');
                }
                proof {
                    assert(decreases_to!(*v => v->Arr_0));
                    assert(v->Arr_0 == items);
                    assert(decreases_to!(*items => items@));
                    assert(decreases_to!(items@ => items@[i as int]));
                }
                append_json_value(out, &items[i]);
                proof {
                    lemma_json_list_snoc(vals_model(items@), i as int);
                    assert(out@ =~= base + json_list(vals_model(items@).take(i + 1)));
                }
                i = i + 1;
            }
            push_char(out, ']');
            proof {
                assert(vals_model(items@).take(n as int) =~= vals_model(items@));
                assert(out@ =~= old(out)@ + json_of(val_model(*v)));
            }
        },
        Value::Obj(fields) => {
            proof {
                lemma_fields_model_index(fields@);
            }
            push_char(out, '{');
            let ghost base = out@;
            let n = fields.len();
            let mut i: usize = 0;
            proof {
                assert(fields_model(fields@).take(0) =~= Seq::<(Seq<char>, ValModel)>::empty());
            }
            while i < n
                invariant
                    i <= n,
                    n == fields.len(),
                    *v == Value::Obj(*fields),
                    fields_model(fields@).len() == n,
                    forall|j: int|
                        0 <= j < n ==> #[trigger] fields_model(fields@)[j] == (
                            fields@[j].0@,
                            val_model(fields@[j].1),
                        ),
                    out@ == base + json_fields(fields_model(fields@).take(i as int)),
                decreases n - i,
            {
                if i > 0 {
                    push_char(out, ',');
                }
                append_json_string(out, fields[i].0.as_str());
                push_char(out, ':');
                proof {
                    assert(decreases_to!(*v => v->Obj_0));
                    assert(v->Obj_0 == fields);
                    assert(decreases_to!(*fields => fields@));
                    assert(decreases_to!(fields@ => fields@[i as int]));
                    assert(decreases_to!(fields@[i as int] => fields@[i as int].1));
                }
                append_json_value(out, &fields[i].1);
                proof {
                    lemma_json_fields_snoc(fields_model(fields@), i as int);
                    assert(out@ =~= base + json_fields(fields_model(fields@).take(i + 1)));
                }
                i = i + 1;
            }
            push_char(out, '}');
            proof {
                assert(fields_model(fields@).take(n as int) =~= fields_model(fields@));
                assert(out@ =~= old(out)@ + json_of(val_model(*v)));
            }
        },
    }
}

proof fn lemma_json_list_snoc(items: Seq<ValModel>, i: int)
    requires
        0 <= i < items.len(),
    ensures
        json_list(items.take(i + 1)) == if i == 0 {
            json_of(items[0])
        } else {
            json_list(items.take(i)) + seq![','] + json_of(items[i])
        },
    decreases i,
{
    if i == 0 {
        assert(items.take(1)[0] == items[0]);
        assert(json_list(items.take(1)) == json_of(items[0]));
    } else {
        lemma_json_list_snoc(items.drop_first(), i - 1);
        assert(items.take(i + 1)[0] == items[0]);
        assert(items.take(i + 1).drop_first() =~= items.drop_first().take(i));
        assert(items.take(i)[0] == items[0]);
        assert(items.take(i).drop_first() =~= items.drop_first().take(i - 1));
        assert(items.drop_first()[i - 1] == items[i]);
        if i == 1 {
            assert(json_list(items.take(2)) =~= json_list(items.take(1)) + seq![','] + json_of(
                items[1],
            ));
        } else {
            assert(json_list(items.take(i + 1)) =~= json_list(items.take(i)) + seq![','] + json_of(
                items[i],
            ));
        }
    }
}

proof fn lemma_json_fields_snoc(fields: Seq<(Seq<char>, ValModel)>, i: int)
    requires
        0 <= i < fields.len(),
    ensures
        json_fields(fields.take(i + 1)) == if i == 0 {
            json_str(fields[0].0) + seq![':'] + json_of(fields[0].1)
        } else {
            json_fields(fields.take(i)) + seq![','] + json_str(fields[i].0) + seq![':'] + json_of(
                fields[i].1,
            )
        },
    decreases i,
{
    if i == 0 {
        assert(fields.take(1)[0] == fields[0]);
        assert(json_fields(fields.take(1)) == json_str(fields[0].0) + seq![':'] + json_of(
            fields[0].1,
        ));
    } else {
        lemma_json_fields_snoc(fields.drop_first(), i - 1);
        assert(fields.take(i + 1)[0] == fields[0]);
        assert(fields.take(i + 1).drop_first() =~= fields.drop_first().take(i));
        assert(fields.take(i)[0] == fields[0]);
        assert(fields.take(i).drop_first() =~= fields.drop_first().take(i - 1));
        assert(fields.drop_first()[i - 1] == fields[i]);
        if i == 1 {
            assert(json_fields(fields.take(2)) =~= json_fields(fields.take(1)) + seq![',']
                + json_str(fields[1].0) + seq![':'] + json_of(fields[1].1));
        } else {
            assert(json_fields(fields.take(i + 1)) =~= json_fields(fields.take(i)) + seq![',']
                + json_str(fields[i].0) + seq![':'] + json_of(fields[i].1));
        }
    }
}

/// The severity's name.
pub open spec fn severity_text(s: Severity) -> Seq<char> {
    match s {
        Severity::Low => "low"@,
        Severity::Medium => "medium"@,
        Severity::High => "high"@,
        Severity::Critical => "critical"@,
    }
}

/// The severity's name, as `severity_text` says.
pub fn severity_name(s: Severity) -> (r: &'static str)
    ensures
        r@ == severity_text(s),
{
    match s {
        Severity::Low => "low",
        Severity::Medium => "medium",
        Severity::High => "high",
        Severity::Critical => "critical",
    }
}

/// The outbound JSON document of an alert: id, tenant, rule identity,
/// severity, the whole event, the correlation evidence where the rule
/// aggregates, and the timestamp.
pub open spec fn alert_json_of(a: Alert) -> Seq<char> {
    "{\"id\":"@ + json_str(a.id@) + ",\"tenant_id\":"@ + json_str(a.tenant_id@) + ",\"rule_id\":"@
        + json_str(a.rule_id@) + ",\"rule_name\":"@ + json_str(a.rule_name@) + ",\"severity\":"@
        + json_str(severity_text(a.severity)) + ",\"event\":"@ + json_of(val_model(a.event)) + (
    match a.correlation {
        Some(ev) => ",\"correlation_count\":"@ + dec_i64(ev.count as int)
            + ",\"correlation_window_seconds\":"@ + dec_u64(ev.window_seconds as nat),
        None => Seq::<char>::empty(),
    }) + ",\"timestamp\":"@ + json_str(a.timestamp@) + seq!['}']
}

/// Renders an alert as its outbound JSON document, as `alert_json_of` says.
pub fn alert_json(a: &Alert) -> (s: String)
    ensures
        s@ == alert_json_of(*a),
{
    let mut out = String::from_str("{\"id\":");
    append_json_string(&mut out, a.id.as_str());
    out.append(",\"tenant_id\":");
    append_json_string(&mut out, a.tenant_id.as_str());
    out.append(",\"rule_id\":");
    append_json_string(&mut out, a.rule_id.as_str());
    out.append(",\"rule_name\":");
    append_json_string(&mut out, a.rule_name.as_str());
    out.append(",\"severity\":");
    append_json_string(&mut out, severity_name(a.severity));
    out.append(",\"event\":");
    append_json_value(&mut out, &a.event);
    match &a.correlation {
        Some(ev) => {
            out.append(",\"correlation_count\":");
            let c = i64_to_string(ev.count);
            out.append(c.as_str());
            out.append(",\"correlation_window_seconds\":");
            let w = u64_to_string(ev.window_seconds);
            out.append(w.as_str());
        },
        None => {},
    }
    out.append(",\"timestamp\":");
    append_json_string(&mut out, a.timestamp.as_str());
    push_char(&mut out, '}');
    proof {
        assert(out@ =~= alert_json_of(*a));
    }
    out
}

} // verus!
