//! What the GraphQL text of values guarantees: string values and integers
//! read back to what was written, and without indentation a value is
//! written on a single line whatever its nesting level.
use vstd::prelude::*;
use crate::ast::{OperationDefinition, Value};
use crate::render::{
    comma_block, escaped_char, escaped_text, hex_digit, int_text, join, lemma_named_values_text,
    lemma_values_text, line_break, named_values_text, nat_text, needs_escape, string_text,
    value_text, values_text, digit_char, is_shorthand, operation_text, variable_text, variables_text,
    operation_header_text, selection_set_text, type_text, default_value_text, directives_text,
};

verus! {

/// The value of a hexadecimal digit.
pub open spec fn hex_value(c: char) -> Option<int> {
    if '0' <= c && c <= '9' {
        Some(c as int - 48)
    } else if 'A' <= c && c <= 'F' {
        Some(c as int - 55)
    } else if 'a' <= c && c <= 'f' {
        Some(c as int - 87)
    } else {
        None
    }
}

/// The character that `\c` stands for in a GraphQL string.
pub open spec fn escape_meaning(c: char) -> Option<char> {
    if c == '"' {
        Some('"')
    } else if c == '\\' {
        Some('\\')
    } else if c == '/' {
        Some('/')
    } else if c == 'b' {
        Some('\x08')
    } else if c == 'f' {
        Some('\x0C')
    } else if c == 'n' {
        Some('\n')
    } else if c == 'r' {
        Some('\r')
    } else if c == 't' {
        Some('\t')
    } else {
        None
    }
}

/// The characters that the body of a GraphQL string (between its quotes)
/// stands for, or `None` when it is not a valid body: an unescaped quote or
/// line break, or a bad escape sequence.
pub open spec fn unescaped(t: Seq<char>) -> Option<Seq<char>>
    decreases t.len(),
{
    if t.len() == 0 {
        Some(Seq::empty())
    } else if t[0] == '\\' {
        if t.len() >= 6 && t[1] == 'u' && hex_value(t[2]) is Some && hex_value(t[3]) is Some
            && hex_value(t[4]) is Some && hex_value(t[5]) is Some {
            let code = ((hex_value(t[2])->0 * 16 + hex_value(t[3])->0) * 16 + hex_value(t[4])->0) * 16
                + hex_value(t[5])->0;
            match unescaped(t.skip(6)) {
                Some(r) => Some(seq![code as char] + r),
                None => None,
            }
        } else if t.len() >= 2 && escape_meaning(t[1]) is Some {
            match unescaped(t.skip(2)) {
                Some(r) => Some(seq![escape_meaning(t[1])->0] + r),
                None => None,
            }
        } else {
            None
        }
    } else if t[0] == '"' || t[0] == '\n' || t[0] == '\r' {
        None
    } else {
        match unescaped(t.skip(1)) {
            Some(r) => Some(seq![t[0]] + r),
            None => None,
        }
    }
}

/// Whether the text holds no line break.
pub open spec fn is_single_line(t: Seq<char>) -> bool {
    forall|i: int| 0 <= i < t.len() ==> t[i] != '\n' && t[i] != '\r'
}

proof fn lemma_escaped_text_append(a: Seq<char>, b: Seq<char>)
    ensures
        escaped_text(a + b) == escaped_text(a) + escaped_text(b),
    decreases b.len(),
{
    if b.len() == 0 {
        assert(a + b =~= a);
    } else {
        lemma_escaped_text_append(a, b.drop_last());
        assert((a + b).drop_last() =~= a + b.drop_last());
        assert((a + b).last() == b.last());
    }
}

proof fn lemma_hex_digit_value(d: int)
    requires
        0 <= d < 16,
    ensures
        hex_value(hex_digit(d)) == Some(d),
{
    if d < 10 {
        assert((d + 48) as char as int == d + 48);
    } else {
        assert((d + 55) as char as int == d + 55);
    }
}

proof fn lemma_unescape_char(c: char, rest: Seq<char>)
    ensures
        unescaped(escaped_char(c) + rest) == match unescaped(rest) {
            Some(r) => Some(seq![c] + r),
            None => None::<Seq<char>>,
        },
{
    let t = escaped_char(c) + rest;
    if c == '\x08' || c == '\n' || c == '\x0C' || c == '\r' || c == '"' || c == '\\' {
        assert(t.skip(2) =~= rest);
    } else if needs_escape(c) {
        let code = c as u32 as int;
        lemma_hex_digit_value(code / 16);
        lemma_hex_digit_value(code % 16);
        assert(t.skip(6) =~= rest);
        assert(hex_value('0') == Some(0int));
        assert(((0 * 16 + 0) * 16 + code / 16) * 16 + code % 16 == code);
        assert((code as char) == c);
    } else {
        assert(t.skip(1) =~= rest);
    }
}

/// Reading the body of a written string value gives back the string.
pub proof fn lemma_string_value_round_trip(s: Seq<char>)
    ensures
        unescaped(escaped_text(s)) == Some(s),
    decreases s.len(),
{
    if s.len() == 0 {
    } else {
        let rest = s.skip(1);
        lemma_string_value_round_trip(rest);
        assert(s =~= seq![s[0]] + rest);
        lemma_escaped_text_append(seq![s[0]], rest);
        assert(seq![s[0]].drop_last() =~= Seq::<char>::empty());
        assert(seq![s[0]].last() == s[0]);
        assert(escaped_text(Seq::<char>::empty()) =~= Seq::<char>::empty());
        assert(escaped_text(seq![s[0]]) == escaped_text(Seq::<char>::empty()) + escaped_char(s[0]));
        assert(escaped_text(seq![s[0]]) =~= escaped_char(s[0]));
        lemma_unescape_char(s[0], escaped_text(rest));
        assert(seq![s[0]] + rest =~= s);
    }
}

/// A written string value is on a single line and starts and ends with a
/// quote.
pub proof fn lemma_string_value_single_line(s: Seq<char>)
    ensures
        is_single_line(string_text(s)),
        string_text(s)[0] == '"',
        string_text(s).last() == '"',
    decreases s.len(),
{
    lemma_escaped_single_line(s);
}

proof fn lemma_escaped_single_line(s: Seq<char>)
    ensures
        is_single_line(escaped_text(s)),
    decreases s.len(),
{
    if s.len() > 0 {
        lemma_escaped_single_line(s.drop_last());
        let c = s.last();
        if needs_escape(c) && !(c == '\x08' || c == '\n' || c == '\x0C' || c == '\r' || c == '"' || c == '\\') {
            let code = c as u32 as int;
            assert(hex_digit(code / 16) != '\n' && hex_digit(code / 16) != '\r') by {
                assert((code / 16 + 48) as char as int == code / 16 + 48);
            }
            assert(hex_digit(code % 16) != '\n' && hex_digit(code % 16) != '\r') by {
                if code % 16 < 10 {
                    assert((code % 16 + 48) as char as int == code % 16 + 48);
                } else {
                    assert((code % 16 + 55) as char as int == code % 16 + 55);
                }
            }
        }
        let a = escaped_text(s.drop_last());
        let b = escaped_char(c);
        assert forall|i: int| 0 <= i < (a + b).len() implies (a + b)[i] != '\n' && (a + b)[i] != '\r' by {
            if i >= a.len() {
                assert((a + b)[i] == b[i - a.len()]);
            }
        }
    }
}

/// The integer that decimal digits stand for.
pub open spec fn decimal_value(ds: Seq<char>) -> int
    decreases ds.len(),
{
    if ds.len() == 0 {
        0
    } else {
        decimal_value(ds.drop_last()) * 10 + (ds.last() as int - 48)
    }
}

/// The integer that a decimal text, with an optional minus sign, stands for.
pub open spec fn parsed_int(t: Seq<char>) -> int {
    if t.len() > 0 && t[0] == '-' {
        -decimal_value(t.skip(1))
    } else {
        decimal_value(t)
    }
}

proof fn lemma_nat_text(n: nat)
    ensures
        decimal_value(nat_text(n)) == n,
        nat_text(n).len() > 0,
        forall|i: int| 0 <= i < nat_text(n).len() ==> '0' <= #[trigger] nat_text(n)[i] <= '9',
    decreases n,
{
    if n < 10 {
        assert(digit_char(n as int) as int == n + 48);
        assert(nat_text(n).drop_last() =~= Seq::<char>::empty());
        assert(nat_text(n).last() == digit_char(n as int));
        assert(decimal_value(nat_text(n)) == decimal_value(Seq::<char>::empty()) * 10 + (digit_char(n as int) as int - 48));
    } else {
        lemma_nat_text(n / 10);
        let d = (n % 10) as int;
        assert(digit_char(d) as int == d + 48);
        assert(nat_text(n).drop_last() =~= nat_text(n / 10));
        assert(nat_text(n).last() == digit_char(d));
        assert(decimal_value(nat_text(n)) == decimal_value(nat_text(n / 10)) * 10 + d);
        assert(n == (n / 10) * 10 + n % 10);
    }
}

/// Reading the decimal text of an integer gives back the integer.
pub proof fn lemma_int_round_trip(i: int)
    ensures
        parsed_int(int_text(i)) == i,
{
    if i < 0 {
        let m = (-i) as nat;
        lemma_nat_text(m);
        assert((seq!['-'] + nat_text(m)).skip(1) =~= nat_text(m));
    } else {
        lemma_nat_text(i as nat);
        assert(nat_text(i as nat)[0] != '-');
    }
}

proof fn lemma_int_text_single_line(i: int)
    ensures
        is_single_line(int_text(i)),
{
    if i < 0 {
        let m = (-i) as nat;
        lemma_nat_text(m);
        let t = seq!['-'] + nat_text(m);
        assert forall|k: int| 0 <= k < t.len() implies t[k] != '\n' && t[k] != '\r' by {
            if k > 0 {
                assert(t[k] == nat_text(m)[k - 1]);
            }
        }
    } else {
        lemma_nat_text(i as nat);
    }
}

/// The names, enum values, variables and number texts inside a value hold no
/// line break (as GraphQL names and numbers never do).
pub open spec fn value_names_single_line(v: Value) -> bool
    decreases v,
{
    match v {
        Value::Enum(n) => is_single_line(n@),
        Value::Variable(n) => is_single_line(n@),
        Value::Float(t) => is_single_line(t@),
        Value::BigInt(t) => is_single_line(t@),
        Value::List(vs) => forall|i: int| 0 <= i < vs@.len() ==> value_names_single_line(#[trigger] vs@[i]),
        Value::Object(fs) => forall|i: int|
            0 <= i < fs@.len() ==> is_single_line((#[trigger] fs@[i]).0@) && value_names_single_line(fs@[i].1),
        _ => true,
    }
}

pub proof fn lemma_concat_single_line(a: Seq<char>, b: Seq<char>)
    requires
        is_single_line(a),
        is_single_line(b),
    ensures
        is_single_line(a + b),
{
    assert forall|i: int| 0 <= i < (a + b).len() implies (a + b)[i] != '\n' && (a + b)[i] != '\r' by {
        if i >= a.len() {
            assert((a + b)[i] == b[i - a.len()]);
        }
    }
}

pub proof fn lemma_join_single_line(items: Seq<Seq<char>>, sep: Seq<char>)
    requires
        is_single_line(sep),
        forall|i: int| 0 <= i < items.len() ==> is_single_line(#[trigger] items[i]),
    ensures
        is_single_line(join(items, sep)),
    decreases items.len(),
{
    if items.len() > 1 {
        let prefix = items.drop_last();
        assert forall|i: int| 0 <= i < prefix.len() implies is_single_line(#[trigger] prefix[i]) by {
            assert(prefix[i] == items[i]);
        }
        lemma_join_single_line(prefix, sep);
        lemma_concat_single_line(join(prefix, sep), sep);
        lemma_concat_single_line(join(prefix, sep) + sep, items.last());
    } else if items.len() == 1 {
        assert(is_single_line(items[0]));
    }
}

pub proof fn lemma_comma_block_single_line(lvl: nat, open: Seq<char>, close: Seq<char>, items: Seq<Seq<char>>)
    requires
        is_single_line(open),
        is_single_line(close),
        forall|i: int| 0 <= i < items.len() ==> is_single_line(#[trigger] items[i]),
    ensures
        is_single_line(comma_block(None, lvl, open, close, items)),
{
    let sep = seq![','] + line_break(None, lvl + 1, true);
    assert(sep =~= seq![',', ' ']);
    lemma_join_single_line(items, sep);
    let j = join(items, sep);
    lemma_concat_single_line(open, j);
    lemma_concat_single_line(open + j, close);
    assert(line_break(None, lvl + 1, false) =~= Seq::<char>::empty());
    assert(line_break(None, lvl, false) =~= Seq::<char>::empty());
    if items.len() > 0 {
        assert(comma_block(None, lvl, open, close, items) =~= open + j + close);
    } else {
        lemma_concat_single_line(open, close);
    }
}

/// Without indentation a value is written on a single line, and the same way
/// at every nesting level.
pub proof fn lemma_value_single_line(v: Value, lvl: nat, other_lvl: nat)
    requires
        value_names_single_line(v),
    ensures
        is_single_line(value_text(v, None, lvl)),
        value_text(v, None, lvl) == value_text(v, None, other_lvl),
    decreases v,
{
    reveal_strlit("null");
    reveal_strlit("true");
    reveal_strlit("false");
    reveal_strlit("$");
    reveal_strlit(".0");
    reveal_strlit("[");
    reveal_strlit("]");
    reveal_strlit("{");
    reveal_strlit("}");
    reveal_strlit(": ");
    match v {
        Value::String(s) => {
            lemma_string_value_single_line(s@);
        },
        Value::Variable(n) => {
            lemma_concat_single_line("$"@, n@);
        },
        Value::Float(t) => {
            lemma_concat_single_line(t@, ".0"@);
        },
        Value::Int(i) => {
            lemma_int_text_single_line(i as int);
        },
        Value::List(vs) => {
            lemma_values_text(vs@, None, lvl + 1);
            lemma_values_text(vs@, None, other_lvl + 1);
            assert forall|i: int| 0 <= i < vs@.len() implies is_single_line(
                #[trigger] values_text(vs@, None, lvl + 1)[i],
            ) && values_text(vs@, None, lvl + 1)[i] == values_text(vs@, None, other_lvl + 1)[i] by {
                lemma_value_single_line(vs@[i], lvl + 1, other_lvl + 1);
            }
            assert(values_text(vs@, None, lvl + 1) =~= values_text(vs@, None, other_lvl + 1));
            lemma_comma_block_single_line(lvl, "["@, "]"@, values_text(vs@, None, lvl + 1));
            assert(line_break(None, lvl + 1, true) =~= line_break(None, other_lvl + 1, true));
            assert(line_break(None, lvl + 1, false) =~= line_break(None, other_lvl + 1, false));
            assert(line_break(None, lvl, false) =~= line_break(None, other_lvl, false));
        },
        Value::Object(fs) => {
            lemma_named_values_text(fs@, None, lvl + 1);
            lemma_named_values_text(fs@, None, other_lvl + 1);
            assert forall|i: int| 0 <= i < fs@.len() implies is_single_line(
                #[trigger] named_values_text(fs@, None, lvl + 1)[i],
            ) && named_values_text(fs@, None, lvl + 1)[i] == named_values_text(fs@, None, other_lvl + 1)[i] by {
                lemma_value_single_line(fs@[i].1, lvl + 1, other_lvl + 1);
                lemma_concat_single_line(fs@[i].0@, ": "@);
                lemma_concat_single_line(fs@[i].0@ + ": "@, value_text(fs@[i].1, None, lvl + 1));
            }
            assert(named_values_text(fs@, None, lvl + 1) =~= named_values_text(fs@, None, other_lvl + 1));
            lemma_comma_block_single_line(lvl, "{"@, "}"@, named_values_text(fs@, None, lvl + 1));
            assert(line_break(None, lvl + 1, true) =~= line_break(None, other_lvl + 1, true));
            assert(line_break(None, lvl + 1, false) =~= line_break(None, other_lvl + 1, false));
            assert(line_break(None, lvl, false) =~= line_break(None, other_lvl, false));
        },
        _ => {},
    }
}

/// The first item of a joined list stands at its start.
proof fn lemma_join_starts_with_first(items: Seq<Seq<char>>, sep: Seq<char>)
    requires
        items.len() > 0,
    ensures
        items[0].is_prefix_of(join(items, sep)),
    decreases items.len(),
{
    if items.len() > 1 {
        let prefix = items.drop_last();
        lemma_join_starts_with_first(prefix, sep);
        assert(prefix[0] == items[0]);
        let j = join(prefix, sep);
        assert(j.subrange(0, items[0].len() as int) =~= (j + sep + items.last()).subrange(
            0,
            items[0].len() as int,
        ));
    }
}

/// How an operation with variable definitions begins: its keyword, its name
/// when it has one, then the parenthesis and the first variable.
pub open spec fn operation_lead(op: OperationDefinition) -> Seq<char> {
    op.operation_type.keyword() + (match op.name {
        Some(n) => " "@ + n@,
        None => Seq::empty(),
    }) + "($"@ + op.variables@[0].name@
}

/// A prefix of a text stays a prefix when more text follows.
proof fn lemma_prefix_then(a: Seq<char>, b: Seq<char>, c: Seq<char>)
    requires
        a.is_prefix_of(b),
    ensures
        a.is_prefix_of(b + c),
{
    assert((b + c).subrange(0, a.len() as int) =~= b.subrange(0, a.len() as int));
}

/// A prefix stays a prefix when the same text precedes both.
proof fn lemma_prefix_after(h: Seq<char>, a: Seq<char>, b: Seq<char>)
    requires
        a.is_prefix_of(b),
    ensures
        (h + a).is_prefix_of(h + b),
{
    assert((h + b).subrange(0, (h.len() + a.len()) as int) =~= h + b.subrange(0, a.len() as int));
}

/// An operation that declares variables is never written in the shorthand
/// form: its text starts with its keyword, its name if it has one, and the
/// parenthesised variable definitions, whatever the indentation.
pub proof fn lemma_operation_variables_written(op: OperationDefinition, cfg: Option<Seq<char>>, lvl: nat)
    requires
        op.variables@.len() > 0,
    ensures
        !is_shorthand(op),
        operation_lead(op).is_prefix_of(operation_text(op, cfg, lvl)),
{
    reveal_strlit("(");
    reveal_strlit("$");
    reveal_strlit("($");
    let vt = variables_text(op.variables@, None, lvl + 1);
    let sep = seq![','] + line_break(None, lvl + 1, true);
    assert(vt[0] == variable_text(op.variables@[0], None, lvl + 1));
    let first = "$"@ + op.variables@[0].name@;
    let v0 = op.variables@[0];
    assert(first.is_prefix_of(vt[0])) by {
        lemma_prefix_then(first, first, ": "@ + type_text(v0.ty) + default_value_text(v0.default_value, None, lvl + 1)
            + directives_text(v0.directives@, lvl + 1));
        assert(vt[0] =~= first + (": "@ + type_text(v0.ty) + default_value_text(v0.default_value, None, lvl + 1)
            + directives_text(v0.directives@, lvl + 1)));
    }
    lemma_join_starts_with_first(vt, sep);
    let j = join(vt, sep);
    assert(first.is_prefix_of(j));
    assert(line_break(None, lvl + 1, false) =~= Seq::<char>::empty());
    let cb = comma_block(None, lvl, "("@, ")"@, vt);
    let rest = join(vt, sep) + Seq::<char>::empty() + line_break(None, lvl, false) + ")"@;
    assert(cb =~= "("@ + rest);
    lemma_prefix_then(first, j, Seq::<char>::empty() + line_break(None, lvl, false) + ")"@);
    assert(rest =~= j + (Seq::<char>::empty() + line_break(None, lvl, false) + ")"@));
    lemma_prefix_after("("@, first, rest);
    assert("($"@ + op.variables@[0].name@ =~= "("@ + first);
    let head = op.operation_type.keyword() + (match op.name {
        Some(n) => " "@ + n@,
        None => Seq::<char>::empty(),
    });
    lemma_prefix_after(head, "("@ + first, cb);
    assert(operation_lead(op) =~= head + ("("@ + first));
    let header = operation_header_text(op, lvl);
    let tail = directives_text(op.directives@, lvl) + " "@;
    assert(header =~= (head + cb) + tail);
    lemma_prefix_then(operation_lead(op), head + cb, tail);
    lemma_prefix_then(operation_lead(op), header, selection_set_text(op.selection_set@, cfg, lvl));
}

} // verus!
