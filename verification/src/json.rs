use vstd::prelude::*;

use crate::models::{List, ListItem, ListItemV, ListV, MyObj};
use crate::store::{items_view, lists_view};

verus! {

/// Relies on String::push: appends exactly the given character.
#[verifier::external_body]
fn push_char(s: &mut String, c: char)
    ensures
        final(s)@ == old(s)@.push(c),
{
    s.push(c)
}

/// The character for one digit value, decimal or hexadecimal.
pub open spec fn digit_char(d: int) -> char {
    if d == 0 {
        '0'
    } else if d == 1 {
        '1'
    } else if d == 2 {
        '2'
    } else if d == 3 {
        '3'
    } else if d == 4 {
        '4'
    } else if d == 5 {
        '5'
    } else if d == 6 {
        '6'
    } else if d == 7 {
        '7'
    } else if d == 8 {
        '8'
    } else if d == 9 {
        '9'
    } else if d == 10 {
        'a'
    } else if d == 11 {
        'b'
    } else if d == 12 {
        'c'
    } else if d == 13 {
        'd'
    } else if d == 14 {
        'e'
    } else {
        'f'
    }
}

/// The decimal rendering of a natural number, without leading zeros.
pub open spec fn dec_nat(n: nat) -> Seq<char>
    decreases n,
{
    if n < 10 {
        seq![digit_char(n as int)]
    } else {
        dec_nat(n / 10).push(digit_char((n % 10) as int))
    }
}

/// The decimal rendering of an integer: a minus sign and the magnitude for
/// a negative one.
pub open spec fn dec_int(n: int) -> Seq<char> {
    if n < 0 {
        seq!['-'] + dec_nat((-n) as nat)
    } else {
        dec_nat(n as nat)
    }
}

/// How one character appears inside a JSON string literal: quote and
/// backslash get a backslash escape, the named control characters get their
/// short escapes, any other control character a `\u00..` escape, and every
/// other character stands for itself.
pub open spec fn json_escaped_char(c: char) -> Seq<char> {
    if c == '"' {
        seq!['\\', '"']
    } else if c == '\\' {
        seq!['\\', '\\']
    } else if c == '\u{8}' {
        seq!['\\', 'b']
    } else if c == '\u{9}' {
        seq!['\\', 't']
    } else if c == '\u{a}' {
        seq!['\\', 'n']
    } else if c == '\u{c}' {
        seq!['\\', 'f']
    } else if c == '\u{d}' {
        seq!['\\', 'r']
    } else if (c as u32) < 0x20 {
        seq!['\\', 'u', '0', '0', digit_char(c as u32 as int / 16), digit_char(
            c as u32 as int % 16,
        )]
    } else {
        seq![c]
    }
}

/// A character sequence with every character escaped for JSON.
pub open spec fn json_escaped(s: Seq<char>) -> Seq<char>
    decreases s.len(),
{
    if s.len() == 0 {
        Seq::empty()
    } else {
        json_escaped(s.drop_last()) + json_escaped_char(s.last())
    }
}

/// A JSON string literal: the escaped characters between double quotes.
pub open spec fn json_str(s: Seq<char>) -> Seq<char> {
    seq!['"'] + json_escaped(s) + seq!['"']
}

/// A JSON boolean.
pub open spec fn json_bool(b: bool) -> Seq<char> {
    if b {
        "true"@
    } else {
        "false"@
    }
}

/// The JSON object for one list row, fields in declaration order.
pub open spec fn json_list(l: ListV) -> Seq<char> {
    "{\"id\":"@ + dec_int(l.id) + ",\"name\":"@ + json_str(l.name) + ",\"deleted\":"@ + json_bool(
        l.deleted,
    ) + "}"@
}

/// The JSON object for one item row, fields in declaration order.
pub open spec fn json_item(it: ListItemV) -> Seq<char> {
    "{\"id\":"@ + dec_int(it.id) + ",\"name\":"@ + json_str(it.name) + ",\"list_id\":"@ + dec_int(
        it.list_id,
    ) + ",\"deleted\":"@ + json_bool(it.deleted) + "}"@
}

/// The comma-separated objects of a JSON array of list rows.
pub open spec fn json_lists_body(ls: Seq<ListV>) -> Seq<char>
    decreases ls.len(),
{
    if ls.len() == 0 {
        Seq::empty()
    } else if ls.len() == 1 {
        json_list(ls[0])
    } else {
        json_lists_body(ls.drop_last()) + seq![','] + json_list(ls.last())
    }
}

/// The JSON array of list rows.
pub open spec fn json_lists(ls: Seq<ListV>) -> Seq<char> {
    seq!['['] + json_lists_body(ls) + seq![']']
}

/// The comma-separated objects of a JSON array of item rows.
pub open spec fn json_items_body(its: Seq<ListItemV>) -> Seq<char>
    decreases its.len(),
{
    if its.len() == 0 {
        Seq::empty()
    } else if its.len() == 1 {
        json_item(its[0])
    } else {
        json_items_body(its.drop_last()) + seq![','] + json_item(its.last())
    }
}

/// The JSON array of item rows.
pub open spec fn json_items(its: Seq<ListItemV>) -> Seq<char> {
    seq!['['] + json_items_body(its) + seq![']']
}

/// The JSON object echoed back by a successful list creation.
pub open spec fn json_myobj(name: Seq<char>, foo: Seq<char>) -> Seq<char> {
    "{\"name\":"@ + json_str(name) + ",\"foo\":"@ + json_str(foo) + "}"@
}

/// The character for one digit value, executable.
fn char_of_digit(d: u8) -> (c: char)
    requires
        d < 16,
    ensures
        c == digit_char(d as int),
{
    match d {
        0 => '0',
        1 => '1',
        2 => '2',
        3 => '3',
        4 => '4',
        5 => '5',
        6 => '6',
        7 => '7',
        8 => '8',
        9 => '9',
        10 => 'a',
        11 => 'b',
        12 => 'c',
        13 => 'd',
        14 => 'e',
        _ => 'f',
    }
}

/// Appends the decimal rendering of a natural number.
fn append_dec_u32(out: &mut String, n: u32)
    ensures
        final(out)@ == old(out)@ + dec_nat(n as nat),
    decreases n,
{
    if n < 10 {
        push_char(out, char_of_digit(n as u8));
        proof {
            assert(final(out)@ =~= old(out)@ + dec_nat(n as nat));
        }
    } else {
        append_dec_u32(out, n / 10);
        push_char(out, char_of_digit((n % 10) as u8));
        proof {
            assert(final(out)@ =~= old(out)@ + dec_nat(n as nat));
        }
    }
}

/// Appends the decimal rendering of an integer.
fn append_dec_i32(out: &mut String, n: i32)
    ensures
        final(out)@ == old(out)@ + dec_int(n as int),
{
    if n >= 0 {
        append_dec_u32(out, n as u32);
    } else {
        push_char(out, '-');
        let m: u32 = (-(n as i64)) as u32;
        append_dec_u32(out, m);
        proof {
            assert(m as nat == (-(n as int)) as nat);
            assert(final(out)@ =~= old(out)@ + dec_int(n as int));
        }
    }
}

/// Appends one character in its escaped JSON form.
fn append_escaped_char(out: &mut String, c: char)
    ensures
        final(out)@ == old(out)@ + json_escaped_char(c),
{
    if c == '"' {
        out.append("\\\"");
        proof {
            reveal_strlit("\\\"");
            assert(final(out)@ =~= old(out)@ + json_escaped_char(c));
        }
    } else if c == '\\' {
        out.append("\\\\");
        proof {
            reveal_strlit("\\\\");
            assert(final(out)@ =~= old(out)@ + json_escaped_char(c));
        }
    } else if c == '\u{8}' {
        out.append("\\b");
        proof {
            reveal_strlit("\\b");
            assert(final(out)@ =~= old(out)@ + json_escaped_char(c));
        }
    } else if c == '\u{9}' {
        out.append("\\t");
        proof {
            reveal_strlit("\\t");
            assert(final(out)@ =~= old(out)@ + json_escaped_char(c));
        }
    } else if c == '\u{a}' {
        out.append("\\n");
        proof {
            reveal_strlit("\\n");
            assert(final(out)@ =~= old(out)@ + json_escaped_char(c));
        }
    } else if c == '\u{c}' {
        out.append("\\f");
        proof {
            reveal_strlit("\\f");
            assert(final(out)@ =~= old(out)@ + json_escaped_char(c));
        }
    } else if c == '\u{d}' {
        out.append("\\r");
        proof {
            reveal_strlit("\\r");
            assert(final(out)@ =~= old(out)@ + json_escaped_char(c));
        }
    } else if (c as u32) < 0x20 {
        let code: u32 = c as u32;
        out.append("\\u00");
        push_char(out, char_of_digit((code / 16) as u8));
        push_char(out, char_of_digit((code % 16) as u8));
        proof {
            reveal_strlit("\\u00");
            assert(final(out)@ =~= old(out)@ + json_escaped_char(c));
        }
    } else {
        push_char(out, c);
        proof {
            assert(final(out)@ =~= old(out)@ + json_escaped_char(c));
        }
    }
}

/// Appends a string in its escaped JSON form, without the quotes.
fn append_escaped(out: &mut String, s: &str)
    ensures
        final(out)@ == old(out)@ + json_escaped(s@),
{
    let len = s.unicode_len();
    proof {
        assert(s@.subrange(0, 0) =~= Seq::<char>::empty());
        assert(old(out)@ + json_escaped(s@.subrange(0, 0)) =~= old(out)@);
    }
    let mut i: usize = 0;
    while i < len
        invariant
            0 <= i <= len,
            len == s@.len(),
            out@ == old(out)@ + json_escaped(s@.subrange(0, i as int)),
        decreases len - i,
    {
        let c = s.get_char(i);
        append_escaped_char(out, c);
        proof {
            assert(s@.subrange(0, i as int + 1).drop_last() =~= s@.subrange(0, i as int));
            assert(s@.subrange(0, i as int + 1).last() == c);
            assert(out@ =~= old(out)@ + json_escaped(s@.subrange(0, i as int + 1)));
        }
        i = i + 1;
    }
    proof {
        assert(s@.subrange(0, s@.len() as int) =~= s@);
    }
}

/// Appends a JSON string literal: the escaped characters between quotes.
fn append_json_str(out: &mut String, s: &str)
    ensures
        final(out)@ == old(out)@ + json_str(s@),
{
    push_char(out, '"');
    append_escaped(out, s);
    push_char(out, '"');
    proof {
        assert(final(out)@ =~= old(out)@ + json_str(s@));
    }
}

/// Appends a JSON boolean.
fn append_bool(out: &mut String, b: bool)
    ensures
        final(out)@ == old(out)@ + json_bool(b),
{
    if b {
        out.append("true");
    } else {
        out.append("false");
    }
}

/// Appends the JSON object for one list row.
fn append_json_list(out: &mut String, l: &List)
    ensures
        final(out)@ == old(out)@ + json_list(l@),
{
    out.append("{\"id\":");
    append_dec_i32(out, l.id);
    out.append(",\"name\":");
    append_json_str(out, l.name.as_str());
    out.append(",\"deleted\":");
    append_bool(out, l.deleted);
    out.append("}");
    proof {
        assert(final(out)@ =~= old(out)@ + json_list(l@));
    }
}

/// Appends the JSON object for one item row.
fn append_json_item(out: &mut String, it: &ListItem)
    ensures
        final(out)@ == old(out)@ + json_item(it@),
{
    out.append("{\"id\":");
    append_dec_i32(out, it.id);
    out.append(",\"name\":");
    append_json_str(out, it.name.as_str());
    out.append(",\"list_id\":");
    append_dec_i32(out, it.list_id);
    out.append(",\"deleted\":");
    append_bool(out, it.deleted);
    out.append("}");
    proof {
        assert(final(out)@ =~= old(out)@ + json_item(it@));
    }
}

/// Renders a table of list rows as a JSON array.
pub fn render_lists(ls: &Vec<List>) -> (r: String)
    ensures
        r@ == json_lists(lists_view(ls@)),
{
    let mut out = String::new();
    push_char(&mut out, '[');
    proof {
        assert(lists_view(ls@).subrange(0, 0) =~= Seq::<ListV>::empty());
        assert(out@ =~= seq!['['] + json_lists_body(lists_view(ls@).subrange(0, 0)));
    }
    let mut i: usize = 0;
    while i < ls.len()
        invariant
            0 <= i <= ls.len(),
            out@ == seq!['['] + json_lists_body(lists_view(ls@).subrange(0, i as int)),
        decreases ls.len() - i,
    {
        if i > 0 {
            push_char(&mut out, ',');
        }
        append_json_list(&mut out, &ls[i]);
        proof {
            let lv = lists_view(ls@);
            assert(lv.subrange(0, i as int + 1).drop_last() =~= lv.subrange(0, i as int));
            assert(lv.subrange(0, i as int + 1).last() == ls@[i as int]@);
            if i == 0 {
                assert(lv.subrange(0, 1)[0] == ls@[0]@);
                assert(json_lists_body(lv.subrange(0, 1)) == json_list(ls@[0]@));
                assert(out@ =~= seq!['['] + json_lists_body(lv.subrange(0, i as int + 1)));
            } else {
                assert(json_lists_body(lv.subrange(0, i as int + 1)) == json_lists_body(
                    lv.subrange(0, i as int),
                ) + seq![','] + json_list(ls@[i as int]@));
                assert(out@ =~= seq!['['] + json_lists_body(lv.subrange(0, i as int + 1)));
            }
        }
        i = i + 1;
    }
    push_char(&mut out, ']');
    proof {
        assert(lists_view(ls@).subrange(0, ls@.len() as int) =~= lists_view(ls@));
        assert(out@ =~= json_lists(lists_view(ls@)));
    }
    out
}

/// Renders a table of item rows as a JSON array.
pub fn render_items(its: &Vec<ListItem>) -> (r: String)
    ensures
        r@ == json_items(items_view(its@)),
{
    let mut out = String::new();
    push_char(&mut out, '[');
    proof {
        assert(items_view(its@).subrange(0, 0) =~= Seq::<ListItemV>::empty());
        assert(out@ =~= seq!['['] + json_items_body(items_view(its@).subrange(0, 0)));
    }
    let mut i: usize = 0;
    while i < its.len()
        invariant
            0 <= i <= its.len(),
            out@ == seq!['['] + json_items_body(items_view(its@).subrange(0, i as int)),
        decreases its.len() - i,
    {
        if i > 0 {
            push_char(&mut out, ',');
        }
        append_json_item(&mut out, &its[i]);
        proof {
            let iv = items_view(its@);
            assert(iv.subrange(0, i as int + 1).drop_last() =~= iv.subrange(0, i as int));
            assert(iv.subrange(0, i as int + 1).last() == its@[i as int]@);
            if i == 0 {
                assert(iv.subrange(0, 1)[0] == its@[0]@);
                assert(json_items_body(iv.subrange(0, 1)) == json_item(its@[0]@));
                assert(out@ =~= seq!['['] + json_items_body(iv.subrange(0, i as int + 1)));
            } else {
                assert(json_items_body(iv.subrange(0, i as int + 1)) == json_items_body(
                    iv.subrange(0, i as int),
                ) + seq![','] + json_item(its@[i as int]@));
                assert(out@ =~= seq!['['] + json_items_body(iv.subrange(0, i as int + 1)));
            }
        }
        i = i + 1;
    }
    push_char(&mut out, ']');
    proof {
        assert(items_view(its@).subrange(0, its@.len() as int) =~= items_view(its@));
        assert(out@ =~= json_items(items_view(its@)));
    }
    out
}

/// Renders the body echoed back by a successful list creation.
pub fn render_myobj(o: &MyObj) -> (r: String)
    ensures
        r@ == json_myobj(o.name@, o.foo@),
{
    let mut out = String::new();
    out.append("{\"name\":");
    append_json_str(&mut out, o.name.as_str());
    out.append(",\"foo\":");
    append_json_str(&mut out, o.foo.as_str());
    out.append("}");
    proof {
        assert(out@ =~= json_myobj(o.name@, o.foo@));
    }
    out
}

/// Renders the empty JSON string that the item handlers answer with.
pub fn render_empty_json_string() -> (r: String)
    ensures
        r@ == json_str(Seq::<char>::empty()),
{
    let mut out = String::new();
    push_char(&mut out, '"');
    push_char(&mut out, '"');
    proof {
        assert(json_escaped(Seq::<char>::empty()) =~= Seq::<char>::empty());
        assert(out@ =~= json_str(Seq::<char>::empty()));
    }
    out
}

} // verus!
