//! TypeScript declarations from the JSON Schema of the wire contract.
//!
//! The wire contract is not pinned to an outside type generator: the schema
//! of the protocol types is turned into TypeScript here. Only the shapes
//! that schema uses are handled (objects, string enums, `$ref`, arrays and
//! the `anyOf` of an optional value); anything else becomes `unknown`.

use vstd::prelude::*;
use crate::handshake::PROTOCOL_MAJOR;
use crate::text::{chars_of, decimal, push_decimal, str_eq};

verus! {

/// A JSON value as the renderer reads it.
#[derive(Debug)]
pub enum JsonNode {
    Null,
    Bool(bool),
    /// A number, in the text `serde_json` writes for it.
    Number(String),
    Str(String),
    /// The items, and the array as `serde_json` writes it compactly.
    Array(Vec<JsonNode>, String),
    /// The members in the order `serde_json` keeps them (by key), and the
    /// object as `serde_json` writes it compactly.
    Object(Vec<(String, JsonNode)>, String),
}

/// A measure of a value, for recursion over it.
pub open spec fn size(n: JsonNode) -> nat
    decreases n,
{
    match n {
        JsonNode::Array(items, _) => 1 + items_size(items@),
        JsonNode::Object(members, _) => 1 + members_size(members@),
        _ => 1,
    }
}

pub open spec fn items_size(s: Seq<JsonNode>) -> nat
    decreases s,
{
    if s.len() == 0 {
        0
    } else {
        1 + size(s[0]) + items_size(s.drop_first())
    }
}

pub open spec fn members_size(m: Seq<(String, JsonNode)>) -> nat
    decreases m,
{
    if m.len() == 0 {
        0
    } else {
        1 + size(m[0].1) + members_size(m.drop_first())
    }
}

/// The value of the first member named `key`.
pub open spec fn member(m: Seq<(String, JsonNode)>, key: Seq<char>) -> Option<JsonNode>
    decreases m.len(),
{
    if m.len() == 0 {
        None
    } else if m[0].0@ == key {
        Some(m[0].1)
    } else {
        member(m.drop_first(), key)
    }
}

pub proof fn lemma_member_smaller(m: Seq<(String, JsonNode)>, key: Seq<char>)
    ensures
        member(m, key) matches Some(v) ==> size(v) < members_size(m),
    decreases m.len(),
{
    if m.len() > 0 && m[0].0@ != key {
        lemma_member_smaller(m.drop_first(), key);
    }
}

/// The members of an object; nothing for any other value.
pub open spec fn members_of(n: JsonNode) -> Seq<(String, JsonNode)> {
    match n {
        JsonNode::Object(m, _) => m@,
        _ => Seq::empty(),
    }
}

/// The member `key` of `m`, when it is an object: its members.
pub open spec fn object_member(m: Seq<(String, JsonNode)>, key: Seq<char>) -> Seq<(String, JsonNode)> {
    match member(m, key) {
        Some(JsonNode::Object(inner, _)) => inner@,
        _ => Seq::empty(),
    }
}

/// The member `key` of `m`, when it is an array: its items.
pub open spec fn array_member(m: Seq<(String, JsonNode)>, key: Seq<char>) -> Option<Seq<JsonNode>> {
    match member(m, key) {
        Some(JsonNode::Array(items, _)) => Some(items@),
        _ => None,
    }
}

/// The member `key` of `m`, when it is a string.
pub open spec fn string_member(m: Seq<(String, JsonNode)>, key: Seq<char>) -> Option<Seq<char>> {
    match member(m, key) {
        Some(JsonNode::Str(t)) => Some(t@),
        _ => None,
    }
}

pub open spec fn has_member(m: Seq<(String, JsonNode)>, key: Seq<char>) -> bool {
    member(m, key) is Some
}


/// The first member named `key`.
fn find_member<'a>(m: &'a Vec<(String, JsonNode)>, key: &str) -> (r: Option<&'a JsonNode>)
    ensures
        match r {
            Some(v) => member(m@, key@) == Some(*v),
            None => member(m@, key@) is None,
        },
{
    let mut i: usize = 0;
    proof {
        assert(m@.skip(0) =~= m@);
    }
    while i < m.len()
        invariant
            i <= m@.len(),
            member(m@, key@) == member(m@.skip(i as int), key@),
        decreases m.len() - i,
    {
        proof {
            assert(m@.skip(i as int).drop_first() =~= m@.skip(i as int + 1));
        }
        if str_eq(m[i].0.as_str(), key) {
            return Some(&m[i].1);
        }
        i = i + 1;
    }
    None
}

/// The text after the last `/`; all of it when there is none.
pub open spec fn last_segment(s: Seq<char>) -> Seq<char>
    decreases s.len(),
{
    if s.len() == 0 {
        s
    } else if s.last() == '/' {
        Seq::empty()
    } else {
        last_segment(s.drop_last()).push(s.last())
    }
}

fn last_segment_of(s: &str) -> (r: String)
    ensures
        r@ == last_segment(s@),
{
    let c = chars_of(s);
    let mut start: usize = c.len();
    proof {
        assert(s@.take(start as int) =~= s@);
        assert(s@.skip(start as int) =~= Seq::<char>::empty());
    }
    while start > 0 && c[start - 1] != '/'
        invariant
            c@ == s@,
            start <= c@.len(),
            last_segment(s@) == last_segment(s@.take(start as int)) + s@.skip(start as int),
        decreases start,
    {
        proof {
            let t = s@.take(start as int);
            assert(t.drop_last() =~= s@.take(start as int - 1));
            assert(s@.skip(start as int - 1) =~= seq![t.last()] + s@.skip(start as int));
            assert(last_segment(t) =~= last_segment(t.drop_last()).push(t.last()));
        }
        start = start - 1;
    }
    proof {
        if start == 0 {
            assert(s@.take(0) =~= Seq::<char>::empty());
        } else {
            assert(s@.take(start as int).last() == '/');
        }
    }
    let mut out = String::new();
    let mut i = start;
    while i < c.len()
        invariant
            c@ == s@,
            start <= i <= c@.len(),
            out@ == s@.subrange(start as int, i as int),
        decreases c.len() - i,
    {
        crate::text::push_char(&mut out, c[i]);
        i = i + 1;
        proof {
            assert(out@ =~= s@.subrange(start as int, i as int));
        }
    }
    proof {
        assert(s@.subrange(start as int, c@.len() as int) =~= s@.skip(start as int));
    }
    out
}

/// Unicode white space, as `char::is_whitespace` decides it.
pub open spec fn is_whitespace(c: char) -> bool {
    ||| '\t' <= c <= '\r'
    ||| c == ' '
    ||| c == '\u{85}'
    ||| c == '\u{a0}'
    ||| c == '\u{1680}'
    ||| '\u{2000}' <= c <= '\u{200a}'
    ||| c == '\u{2028}'
    ||| c == '\u{2029}'
    ||| c == '\u{202f}'
    ||| c == '\u{205f}'
    ||| c == '\u{3000}'
}

fn is_whitespace_char(c: char) -> (r: bool)
    ensures
        r == is_whitespace(c),
{
    ('\t' <= c && c <= '\r') || c == ' ' || c == '\u{85}' || c == '\u{a0}' || c == '\u{1680}' || (
    '\u{2000}' <= c && c <= '\u{200a}') || c == '\u{2028}' || c == '\u{2029}' || c == '\u{202f}'
        || c == '\u{205f}' || c == '\u{3000}'
}

/// The text without its trailing white space.
pub open spec fn trim_end(s: Seq<char>) -> Seq<char>
    decreases s.len(),
{
    if s.len() > 0 && is_whitespace(s.last()) {
        trim_end(s.drop_last())
    } else {
        s
    }
}

/// The pieces of a text between its newlines: one more than it has
/// newlines.
pub open spec fn newline_pieces(s: Seq<char>) -> Seq<Seq<char>>
    decreases s.len(),
{
    if s.len() == 0 {
        seq![Seq::empty()]
    } else {
        let rest = newline_pieces(s.drop_last());
        if s.last() == '\n' {
            rest.push(Seq::empty())
        } else {
            rest.update(rest.len() - 1, rest.last().push(s.last()))
        }
    }
}

pub proof fn lemma_newline_pieces_nonempty(s: Seq<char>)
    ensures
        newline_pieces(s).len() >= 1,
    decreases s.len(),
{
    if s.len() > 0 {
        lemma_newline_pieces_nonempty(s.drop_last());
    }
}

/// The lines of a text as `str::lines` cuts them: no empty line after a
/// final newline, and none for an empty text.
pub open spec fn text_lines(s: Seq<char>) -> Seq<Seq<char>> {
    let pieces = newline_pieces(s);
    if pieces.last().len() == 0 {
        pieces.drop_last()
    } else {
        pieces
    }
}

/// One line of a doc comment. A blank line is ` *` with nothing after it,
/// so that no line ends in white space.
pub open spec fn doc_line(line: Seq<char>, indent: Seq<char>) -> Seq<char> {
    let t = trim_end(line);
    if t.len() == 0 {
        indent + " *\n"@
    } else {
        indent + " * "@ + t + "\n"@
    }
}

pub open spec fn doc_lines(lines: Seq<Seq<char>>, indent: Seq<char>) -> Seq<char>
    decreases lines.len(),
{
    if lines.len() == 0 {
        Seq::empty()
    } else {
        doc_lines(lines.drop_last(), indent) + doc_line(lines.last(), indent)
    }
}

/// A `/** ... */` comment holding `description`, each line indented.
pub open spec fn doc_comment(description: Seq<char>, indent: Seq<char>) -> Seq<char> {
    indent + "/**\n"@ + doc_lines(text_lines(description), indent) + indent + " */\n"@
}

/// Appends the doc line for `line`.
fn push_doc_line(out: &mut String, line: &Vec<char>, indent: &str)
    ensures
        final(out)@ == old(out)@ + doc_line(line@, indent@),
{
    let mut end = line.len();
    proof {
        assert(line@.take(end as int) =~= line@);
    }
    while end > 0 && is_whitespace_char(line[end - 1])
        invariant
            end <= line@.len(),
            trim_end(line@) == trim_end(line@.take(end as int)),
        decreases end,
    {
        proof {
            assert(line@.take(end as int).drop_last() =~= line@.take(end as int - 1));
        }
        end = end - 1;
    }
    proof {
        assert(trim_end(line@.take(end as int)) == line@.take(end as int));
    }
    out.append(indent);
    if end == 0 {
        out.append(" *\n");
    } else {
        out.append(" * ");
        let mut i: usize = 0;
        let ghost before = out@;
        while i < end
            invariant
                end <= line@.len(),
                i <= end,
                out@ == before + line@.take(i as int),
            decreases end - i,
        {
            crate::text::push_char(out, line[i]);
            i = i + 1;
            proof {
                assert(out@ =~= before + line@.take(i as int));
            }
        }
        proof {
            assert(line@.take(end as int).take(end as int) =~= line@.take(end as int));
        }
        out.append("\n");
    }
}

/// Renders a doc comment.
fn render_doc_comment(description: &str, indent: &str) -> (r: String)
    ensures
        r@ == doc_comment(description@, indent@),
{
    let chars = chars_of(description);
    let mut out = String::from_str(indent);
    out.append("/**\n");
    let ghost head = out@;
    let mut current: Vec<char> = Vec::new();
    let ghost mut done: Seq<Seq<char>> = Seq::empty();
    let mut i: usize = 0;
    while i < chars.len()
        invariant
            chars@ == description@,
            i <= chars@.len(),
            newline_pieces(description@.take(i as int)) == done.push(current@),
            out@ == head + doc_lines(done, indent@),
        decreases chars.len() - i,
    {
        let c = chars[i];
        proof {
            let t = description@.take(i as int + 1);
            assert(t.drop_last() =~= description@.take(i as int));
            assert(t.last() == c);
        }
        if c == '\n' {
            push_doc_line(&mut out, &current, indent);
            proof {
                assert(done.push(current@).drop_last() =~= done);
                done = done.push(current@);
            }
            current = Vec::new();
            proof {
                assert(newline_pieces(description@.take(i as int + 1)) =~= done.push(current@));
            }
        } else {
            let ghost old_current = current@;
            current.push(c);
            proof {
                let prev = done.push(old_current);
                let t = description@.take(i as int + 1);
                assert(newline_pieces(t.drop_last()) == prev);
                assert(newline_pieces(t) == prev.update(prev.len() - 1, prev.last().push(c)));
                assert(newline_pieces(description@.take(i as int + 1)) =~= prev.update(
                    prev.len() - 1,
                    prev.last().push(c),
                ));
                assert(prev.update(prev.len() - 1, prev.last().push(c)) =~= done.push(current@));
            }
        }
        i = i + 1;
    }
    proof {
        assert(description@.take(chars@.len() as int) =~= description@);
    }
    if current.len() > 0 {
        push_doc_line(&mut out, &current, indent);
        proof {
            assert(done.push(current@).drop_last() =~= done);
            assert(text_lines(description@) == done.push(current@));
        }
    } else {
        proof {
            assert(done.push(current@).drop_last() =~= done);
            assert(text_lines(description@) == done);
        }
    }
    out.append(indent);
    out.append(" */\n");
    out
}

/// The parts with repeats left out, first occurrences kept in order.
pub open spec fn dedupe(parts: Seq<Seq<char>>) -> Seq<Seq<char>>
    decreases parts.len(),
{
    if parts.len() == 0 {
        Seq::empty()
    } else {
        let kept = dedupe(parts.drop_last());
        if kept.contains(parts.last()) {
            kept
        } else {
            kept.push(parts.last())
        }
    }
}

/// The parts joined with ` | `.
pub open spec fn join_bar(parts: Seq<Seq<char>>) -> Seq<char>
    decreases parts.len(),
{
    if parts.len() == 0 {
        Seq::empty()
    } else if parts.len() == 1 {
        parts[0]
    } else {
        join_bar(parts.drop_last()) + " | "@ + parts.last()
    }
}

/// A TypeScript union of the distinct parts; `unknown` for none.
pub open spec fn union_text(parts: Seq<Seq<char>>) -> Seq<char> {
    if dedupe(parts).len() == 0 {
        "unknown"@
    } else {
        join_bar(dedupe(parts))
    }
}

fn contains_string(items: &Vec<String>, s: &String) -> (r: bool)
    ensures
        r == views(items@).contains(s@),
{
    let mut i: usize = 0;
    while i < items.len()
        invariant
            i <= items@.len(),
            forall|j: int| 0 <= j < i ==> (#[trigger] items@[j])@ != s@,
        decreases items.len() - i,
    {
        if str_eq(items[i].as_str(), s.as_str()) {
            proof {
                assert(views(items@)[i as int] == s@);
            }
            return true;
        }
        i = i + 1;
    }
    proof {
        if views(items@).contains(s@) {
            let j = choose|j: int| 0 <= j < items@.len() && #[trigger] views(items@)[j] == s@;
            assert(items@[j]@ != s@);
        }
    }
    false
}

pub open spec fn views(items: Seq<String>) -> Seq<Seq<char>> {
    items.map_values(|x: String| x@)
}

/// The union of the parts.
fn union_of(parts: Vec<String>) -> (r: String)
    ensures
        r@ == union_text(views(parts@)),
{
    let ghost all = views(parts@);
    let mut seen: Vec<String> = Vec::new();
    let mut i: usize = 0;
    while i < parts.len()
        invariant
            all == views(parts@),
            i <= parts@.len(),
            views(seen@) == dedupe(all.take(i as int)),
        decreases parts.len() - i,
    {
        proof {
            assert(all.take(i as int + 1).drop_last() =~= all.take(i as int));
            assert(all.take(i as int + 1).last() == parts@[i as int]@);
        }
        let part = &parts[i];
        if !contains_string(&seen, part) {
            seen.push(part.clone());
            proof {
                assert(views(seen@) =~= views(seen@.drop_last()).push(part@));
            }
        }
        i = i + 1;
    }
    proof {
        assert(all.take(parts@.len() as int) =~= all);
    }
    if seen.len() == 0 {
        return String::from_str("unknown");
    }
    let mut out = String::new();
    let mut k: usize = 0;
    while k < seen.len()
        invariant
            views(seen@) == dedupe(all),
            seen@.len() > 0,
            k <= seen@.len(),
            k > 0 ==> out@ == join_bar(views(seen@).take(k as int)),
            k == 0 ==> out@.len() == 0,
        decreases seen.len() - k,
    {
        proof {
            let t = views(seen@).take(k as int + 1);
            assert(t.drop_last() =~= views(seen@).take(k as int));
            assert(t.last() == seen@[k as int]@);
        }
        if k > 0 {
            out.append(" | ");
        }
        out.append(seen[k].as_str());
        proof {
            if k == 0 {
                assert(views(seen@).take(1) =~= seq![seen@[0]@]);
            }
        }
        k = k + 1;
    }
    proof {
        assert(views(seen@).take(seen@.len() as int) =~= views(seen@));
    }
    out
}

/// In brackets when it is a union, so that it can stand before `[]`.
pub open spec fn parenthesize(t: Seq<char>) -> Seq<char> {
    if crate::name::contains_text(t, " | "@) {
        "("@ + t + ")"@
    } else {
        t
    }
}

fn parenthesized(t: String) -> (r: String)
    ensures
        r@ == parenthesize(t@),
{
    let c = chars_of(t.as_str());
    let n = c.len();
    let mut found = false;
    proof {
        reveal_strlit(" | ");
    }
    if n >= 3 {
        let mut k: usize = 0;
        while k <= n - 3 && !found
            invariant
                c@ == t@,
                n == c@.len(),
                n >= 3,
                k <= n - 2,
                " | "@ == seq![' ', '|', ' '],
                found ==> crate::name::contains_text(t@, " | "@),
                !found ==> forall|j: int| 0 <= j < k ==> #[trigger] t@.subrange(j, j + 3) != " | "@,
            decreases n - k,
        {
            if c[k] == ' ' && c[k + 1] == '|' && c[k + 2] == ' ' {
                proof {
                    assert(t@.subrange(k as int, k as int + 3) =~= " | "@);
                }
                found = true;
            } else {
                proof {
                    assert(t@.subrange(k as int, k as int + 3)[0] == c@[k as int]);
                    assert(t@.subrange(k as int, k as int + 3)[1] == c@[k as int + 1]);
                    assert(t@.subrange(k as int, k as int + 3)[2] == c@[k as int + 2]);
                }
            }
            k = k + 1;
        }
    }
    if found {
        let mut out = String::from_str("(");
        out.append(t.as_str());
        out.append(")");
        out
    } else {
        proof {
            if crate::name::contains_text(t@, " | "@) {
                let j = choose|j: int|
                    0 <= j && j + " | "@.len() <= t@.len() && #[trigger] t@.subrange(
                        j,
                        j + " | "@.len(),
                    ) == " | "@;
                assert(t@.subrange(j, j + 3) == " | "@);
            }
        }
        t
    }
}

/// A JSON value written as a TypeScript literal type: a string in double
/// quotes as it is, anything else as `serde_json` writes it.
pub open spec fn literal_of(v: JsonNode) -> Seq<char> {
    match v {
        JsonNode::Str(t) => "\""@ + t@ + "\""@,
        JsonNode::Null => "null"@,
        JsonNode::Bool(b) => if b {
            "true"@
        } else {
            "false"@
        },
        JsonNode::Number(t) => t@,
        JsonNode::Array(_, t) => t@,
        JsonNode::Object(_, t) => t@,
    }
}

fn literal(v: &JsonNode) -> (r: String)
    ensures
        r@ == literal_of(*v),
{
    match v {
        JsonNode::Str(t) => {
            let mut out = String::from_str("\"");
            out.append(t.as_str());
            out.append("\"");
            out
        },
        JsonNode::Null => String::from_str("null"),
        JsonNode::Bool(b) => if *b {
            String::from_str("true")
        } else {
            String::from_str("false")
        },
        JsonNode::Number(t) => t.clone(),
        JsonNode::Array(_, t) => t.clone(),
        JsonNode::Object(_, t) => t.clone(),
    }
}

pub proof fn lemma_item_smaller(s: Seq<JsonNode>, i: int)
    requires
        0 <= i < s.len(),
    ensures
        size(s[i]) < items_size(s),
    decreases s.len(),
{
    if i > 0 {
        lemma_item_smaller(s.drop_first(), i - 1);
    }
}

pub proof fn lemma_items_drop_last(s: Seq<JsonNode>)
    requires
        s.len() > 0,
    ensures
        items_size(s.drop_last()) < items_size(s),
    decreases s.len(),
{
    if s.len() > 1 {
        lemma_items_drop_last(s.drop_first());
        assert(s.drop_last().drop_first() =~= s.drop_first().drop_last());
    } else {
        assert(s.drop_last().len() == 0);
    }
}

pub proof fn lemma_member_at_smaller(m: Seq<(String, JsonNode)>, i: int)
    requires
        0 <= i < m.len(),
    ensures
        size(m[i].1) < members_size(m),
    decreases m.len(),
{
    if i > 0 {
        lemma_member_at_smaller(m.drop_first(), i - 1);
    }
}

pub proof fn lemma_members_drop_last(m: Seq<(String, JsonNode)>)
    requires
        m.len() > 0,
    ensures
        members_size(m.drop_last()) < members_size(m),
    decreases m.len(),
{
    if m.len() > 1 {
        lemma_members_drop_last(m.drop_first());
        assert(m.drop_last().drop_first() =~= m.drop_first().drop_last());
    } else {
        assert(m.drop_last().len() == 0);
    }
}

pub proof fn lemma_inner_members_smaller(m: Seq<(String, JsonNode)>, key: Seq<char>)
    ensures
        members_size(object_member(m, key)) <= members_size(m),
        array_member(m, key) matches Some(items) ==> items_size(items) < members_size(m),
{
    lemma_member_smaller(m, key);
}

/// The string items of an array.
pub open spec fn strings_of(items: Seq<JsonNode>) -> Seq<Seq<char>>
    decreases items.len(),
{
    if items.len() == 0 {
        Seq::empty()
    } else {
        let rest = strings_of(items.drop_last());
        match items.last() {
            JsonNode::Str(t) => rest.push(t@),
            _ => rest,
        }
    }
}

/// The names an object schema lists as `required`.
pub open spec fn required_names(m: Seq<(String, JsonNode)>) -> Seq<Seq<char>> {
    match array_member(m, "required"@) {
        Some(items) => strings_of(items),
        None => Seq::empty(),
    }
}

/// The TypeScript type of one schema node: a `$ref` by the name it points
/// to (with its own properties added, as a variant of an internally tagged
/// enum has them), a `const` or an `enum` as literal types, `oneOf` and
/// `anyOf` as unions, and a `type` by [`primitive_type`]; `unknown` for
/// anything else.
pub open spec fn type_text(n: JsonNode) -> Seq<char>
    decreases size(n), 4nat, 0nat,
{
    match n {
        JsonNode::Object(members, _) => {
            let m = members@;
            proof {
                lemma_member_smaller(m, "items"@);
                lemma_inner_members_smaller(m, "oneOf"@);
                lemma_inner_members_smaller(m, "anyOf"@);
            }
            if string_member(m, "$ref"@) is Some {
                let name = last_segment(string_member(m, "$ref"@)->0);
                if has_member(m, "properties"@) {
                    name + " & {\n"@ + properties_text(m) + "}"@
                } else {
                    name
                }
            } else if member(m, "const"@) is Some {
                literal_of(member(m, "const"@)->0)
            } else if array_member(m, "enum"@) is Some {
                union_text(array_member(m, "enum"@)->0.map_values(|v: JsonNode| literal_of(v)))
            } else if array_member(m, "oneOf"@) is Some {
                union_text(types_text(array_member(m, "oneOf"@)->0))
            } else if array_member(m, "anyOf"@) is Some {
                union_text(types_text(array_member(m, "anyOf"@)->0))
            } else {
                match member(m, "type"@) {
                    Some(JsonNode::Str(kind)) => primitive_type(kind@, m),
                    Some(JsonNode::Array(kinds, _)) => union_text(kinds_text(kinds@, m)),
                    _ => "unknown"@,
                }
            }
        },
        _ => "unknown"@,
    }
}

/// The types of the items, in order.
pub open spec fn types_text(items: Seq<JsonNode>) -> Seq<Seq<char>>
    decreases items_size(items), 3nat, 0nat,
{
    if items.len() == 0 {
        Seq::empty()
    } else {
        proof {
            lemma_items_drop_last(items);
            lemma_item_smaller(items, items.len() - 1);
        }
        types_text(items.drop_last()).push(type_text(items.last()))
    }
}

/// The types named by a list of `type` names; items that are not strings
/// are left out.
pub open spec fn kinds_text(kinds: Seq<JsonNode>, m: Seq<(String, JsonNode)>) -> Seq<Seq<char>>
    decreases members_size(m), 3nat, kinds.len(),
{
    if kinds.len() == 0 {
        Seq::empty()
    } else {
        let rest = kinds_text(kinds.drop_last(), m);
        match kinds.last() {
            JsonNode::Str(kind) => rest.push(primitive_type(kind@, m)),
            _ => rest,
        }
    }
}

/// The TypeScript type for a JSON Schema `type` name.
pub open spec fn primitive_type(kind: Seq<char>, m: Seq<(String, JsonNode)>) -> Seq<char>
    decreases members_size(m), 2nat, 0nat,
{
    proof {
        lemma_member_smaller(m, "items"@);
        lemma_member_smaller(m, "additionalProperties"@);
    }
    if kind == "string"@ {
        "string"@
    } else if kind == "boolean"@ {
        "boolean"@
    } else if kind == "integer"@ || kind == "number"@ {
        "number"@
    } else if kind == "null"@ {
        "null"@
    } else if kind == "array"@ {
        let item = match member(m, "items"@) {
            Some(items) => parenthesize(type_text(items)),
            None => "unknown"@,
        };
        "readonly "@ + item + "[]"@
    } else if kind == "object"@ {
        if has_member(m, "properties"@) {
            "{\n"@ + properties_text(m) + "}"@
        } else {
            let value = match member(m, "additionalProperties"@) {
                Some(v) => type_text(v),
                None => "unknown"@,
            };
            "{ readonly [key: string]: "@ + value + " }"@
        }
    } else {
        "unknown"@
    }
}

/// The property lines of an object schema.
pub open spec fn properties_text(m: Seq<(String, JsonNode)>) -> Seq<char>
    decreases members_size(m), 1nat, 0nat,
{
    proof {
        lemma_inner_members_smaller(m, "properties"@);
    }
    property_lines(object_member(m, "properties"@), required_names(m))
}

/// One line per property, each with its doc comment: `readonly`, with `?`
/// when the property is not required.
pub open spec fn property_lines(props: Seq<(String, JsonNode)>, required: Seq<Seq<char>>) -> Seq<char>
    decreases members_size(props), 0nat, 0nat,
{
    if props.len() == 0 {
        Seq::empty()
    } else {
        proof {
            lemma_members_drop_last(props);
            lemma_member_at_smaller(props, props.len() - 1);
        }
        property_lines(props.drop_last(), required) + property_line(
            props.last().0@,
            props.last().1,
            required,
        )
    }
}

pub open spec fn property_line(field: Seq<char>, schema: JsonNode, required: Seq<Seq<char>>) -> Seq<char>
    decreases size(schema), 5nat, 0nat,
{
    let doc = match string_member(members_of(schema), "description"@) {
        Some(d) => doc_comment(d, "  "@),
        None => Seq::empty(),
    };
    let optional = if required.contains(field) {
        ""@
    } else {
        "?"@
    };
    doc + "  readonly "@ + field + optional + ": "@ + type_text(schema) + ";\n"@
}

fn strings_in(items: &Vec<JsonNode>) -> (r: Vec<String>)
    ensures
        views(r@) == strings_of(items@),
{
    let mut out: Vec<String> = Vec::new();
    let mut i: usize = 0;
    while i < items.len()
        invariant
            i <= items@.len(),
            views(out@) == strings_of(items@.take(i as int)),
        decreases items.len() - i,
    {
        proof {
            assert(items@.take(i as int + 1).drop_last() =~= items@.take(i as int));
            assert(items@.take(i as int + 1).last() == items@[i as int]);
        }
        match &items[i] {
            JsonNode::Str(t) => {
                out.push(t.clone());
                proof {
                    assert(views(out@) =~= views(out@.drop_last()).push(t@));
                }
            },
            _ => {},
        }
        i = i + 1;
    }
    proof {
        assert(items@.take(items@.len() as int) =~= items@);
    }
    out
}

fn required_of(m: &Vec<(String, JsonNode)>) -> (r: Vec<String>)
    ensures
        views(r@) == required_names(m@),
{
    match find_member(m, "required") {
        Some(JsonNode::Array(items, _)) => strings_in(items),
        _ => {
            proof {
                assert(views(Seq::<String>::empty()) =~= Seq::<Seq<char>>::empty());
            }
            Vec::new()
        },
    }
}

/// The TypeScript type of one schema node.
pub fn type_of(n: &JsonNode) -> (r: String)
    ensures
        r@ == type_text(*n),
    decreases size(*n), 4nat, 0nat,
{
    match n {
        JsonNode::Object(members, _) => {
            let ghost m = members@;
            proof {
                assert(size(*n) == 1 + members_size(m));
                lemma_member_smaller(m, "items"@);
                lemma_inner_members_smaller(m, "enum"@);
                lemma_inner_members_smaller(m, "oneOf"@);
                lemma_inner_members_smaller(m, "anyOf"@);
                lemma_inner_members_smaller(m, "type"@);
            }
            match find_member(members, "$ref") {
                Some(JsonNode::Str(reference)) => {
                    let name = last_segment_of(reference.as_str());
                    if find_member(members, "properties").is_some() {
                        let mut out = name;
                        out.append(" & {\n");
                        let body = render_properties(members);
                        out.append(body.as_str());
                        out.append("}");
                        return out;
                    }
                    return name;
                },
                _ => {},
            }
            match find_member(members, "const") {
                Some(c) => {
                    return literal(c);
                },
                None => {},
            }
            match find_member(members, "enum") {
                Some(JsonNode::Array(values, _)) => {
                    let mut parts: Vec<String> = Vec::new();
                    let mut i: usize = 0;
                    while i < values.len()
                        invariant
                            i <= values@.len(),
                            views(parts@) == values@.take(i as int).map_values(|v: JsonNode| literal_of(v)),
                        decreases values.len() - i,
                    {
                        let ghost before = views(parts@);
                        let text = literal(&values[i]);
                        parts.push(text);
                        proof {
                            assert(views(parts@) =~= before.push(text@));
                            assert(values@.take(i as int + 1).map_values(|v: JsonNode| literal_of(v))
                                =~= values@.take(i as int).map_values(|v: JsonNode| literal_of(v)).push(
                                literal_of(values@[i as int]),
                            ));
                        }
                        i = i + 1;
                    }
                    proof {
                        assert(values@.take(values@.len() as int) =~= values@);
                    }
                    return union_of(parts);
                },
                _ => {},
            }
            match find_member(members, "oneOf") {
                Some(JsonNode::Array(variants, _)) => {
                    let parts = types_of(variants);
                    return union_of(parts);
                },
                _ => {},
            }
            match find_member(members, "anyOf") {
                Some(JsonNode::Array(variants, _)) => {
                    let parts = types_of(variants);
                    return union_of(parts);
                },
                _ => {},
            }
            match find_member(members, "type") {
                Some(JsonNode::Str(kind)) => primitive_of(kind.as_str(), members),
                Some(JsonNode::Array(kinds, _)) => {
                    let mut parts: Vec<String> = Vec::new();
                    let mut i: usize = 0;
                    while i < kinds.len()
                        invariant
                            m == members@,
                            members_size(m) < size(*n),
                            i <= kinds@.len(),
                            views(parts@) == kinds_text(kinds@.take(i as int), m),
                        decreases kinds.len() - i,
                    {
                        proof {
                            assert(kinds@.take(i as int + 1).drop_last() =~= kinds@.take(i as int));
                            assert(kinds@.take(i as int + 1).last() == kinds@[i as int]);
                        }
                        match &kinds[i] {
                            JsonNode::Str(kind) => {
                                let text = primitive_of(kind.as_str(), members);
                                parts.push(text);
                                proof {
                                    assert(views(parts@) =~= views(parts@.drop_last()).push(text@));
                                }
                            },
                            _ => {},
                        }
                        i = i + 1;
                    }
                    proof {
                        assert(kinds@.take(kinds@.len() as int) =~= kinds@);
                    }
                    union_of(parts)
                },
                _ => String::from_str("unknown"),
            }
        },
        _ => String::from_str("unknown"),
    }
}

fn types_of(items: &Vec<JsonNode>) -> (r: Vec<String>)
    ensures
        views(r@) == types_text(items@),
    decreases items_size(items@), 3nat, 0nat,
{
    let mut parts: Vec<String> = Vec::new();
    let mut i: usize = 0;
    while i < items.len()
        invariant
            i <= items@.len(),
            views(parts@) == types_text(items@.take(i as int)),
        decreases items.len() - i,
    {
        proof {
            assert(items@.take(i as int + 1).drop_last() =~= items@.take(i as int));
            assert(items@.take(i as int + 1).last() == items@[i as int]);
            lemma_item_smaller(items@, i as int);
        }
        let text = type_of(&items[i]);
        parts.push(text);
        proof {
            assert(views(parts@) =~= views(parts@.drop_last()).push(text@));
        }
        i = i + 1;
    }
    proof {
        assert(items@.take(items@.len() as int) =~= items@);
    }
    parts
}

/// The TypeScript type for a JSON Schema `type` name.
fn primitive_of(kind: &str, m: &Vec<(String, JsonNode)>) -> (r: String)
    ensures
        r@ == primitive_type(kind@, m@),
    decreases members_size(m@), 2nat, 0nat,
{
    proof {
        lemma_member_smaller(m@, "items"@);
        lemma_member_smaller(m@, "additionalProperties"@);
        reveal_strlit("string");
        reveal_strlit("boolean");
        reveal_strlit("integer");
        reveal_strlit("number");
        reveal_strlit("null");
        reveal_strlit("array");
        reveal_strlit("object");
    }
    if str_eq(kind, "string") {
        String::from_str("string")
    } else if str_eq(kind, "boolean") {
        String::from_str("boolean")
    } else if str_eq(kind, "integer") || str_eq(kind, "number") {
        String::from_str("number")
    } else if str_eq(kind, "null") {
        String::from_str("null")
    } else if str_eq(kind, "array") {
        let item = match find_member(m, "items") {
            Some(items) => parenthesized(type_of(items)),
            None => String::from_str("unknown"),
        };
        let mut out = String::from_str("readonly ");
        out.append(item.as_str());
        out.append("[]");
        out
    } else if str_eq(kind, "object") {
        if find_member(m, "properties").is_some() {
            let mut out = String::from_str("{\n");
            let body = render_properties(m);
            out.append(body.as_str());
            out.append("}");
            out
        } else {
            let value = match find_member(m, "additionalProperties") {
                Some(v) => type_of(v),
                None => String::from_str("unknown"),
            };
            let mut out = String::from_str("{ readonly [key: string]: ");
            out.append(value.as_str());
            out.append(" }");
            out
        }
    } else {
        String::from_str("unknown")
    }
}

/// The property lines of an object schema.
fn render_properties(m: &Vec<(String, JsonNode)>) -> (r: String)
    ensures
        r@ == properties_text(m@),
    decreases members_size(m@), 1nat, 0nat,
{
    proof {
        lemma_inner_members_smaller(m@, "properties"@);
        lemma_member_smaller(m@, "properties"@);
    }
    let required = required_of(m);
    let mut out = String::new();
    match find_member(m, "properties") {
        Some(JsonNode::Object(props, _)) => {
            let ghost req = required_names(m@);
            let mut i: usize = 0;
            while i < props.len()
                invariant
                    i <= props@.len(),
                    views(required@) == req,
                    props@ == object_member(m@, "properties"@),
                    members_size(props@) < members_size(m@),
                    out@ == property_lines(props@.take(i as int), req),
                decreases props.len() - i,
            {
                proof {
                    assert(props@.take(i as int + 1).drop_last() =~= props@.take(i as int));
                    assert(props@.take(i as int + 1).last() == props@[i as int]);
                    lemma_member_at_smaller(props@, i as int);
                }
                let field = &props[i].0;
                let schema = &props[i].1;
                let ghost old_out = out@;
                let ghost doc_text = match string_member(members_of(*schema), "description"@) {
                    Some(d) => doc_comment(d, "  "@),
                    None => Seq::empty(),
                };
                match schema {
                    JsonNode::Object(sm, _) => match find_member(sm, "description") {
                        Some(JsonNode::Str(d)) => {
                            let doc = render_doc_comment(d.as_str(), "  ");
                            out.append(doc.as_str());
                        },
                        _ => {},
                    },
                    _ => {},
                }
                proof {
                    assert(out@ == old_out + doc_text);
                }
                out.append("  readonly ");
                out.append(field.as_str());
                let ghost optional: Seq<char> = if req.contains(field@) {
                    ""@
                } else {
                    "?"@
                };
                if !contains_string(&required, field) {
                    out.append("?");
                } else {
                    proof {
                        reveal_strlit("");
                        assert(out@ =~= out@ + ""@);
                    }
                }
                out.append(": ");
                let text = type_of(schema);
                out.append(text.as_str());
                out.append(";\n");
                proof {
                    assert(out@ =~= old_out + (doc_text + "  readonly "@ + field@ + optional + ": "@
                        + type_text(*schema) + ";\n"@));
                    assert(property_line(field@, *schema, req) == doc_text + "  readonly "@ + field@
                        + optional + ": "@ + type_text(*schema) + ";\n"@);
                }
                i = i + 1;
            }
            proof {
                assert(props@.take(props@.len() as int) =~= props@);
            }
        },
        _ => {},
    }
    out
}

/// One definition: an object schema with properties becomes an
/// `interface`, anything else a `type` alias; a description becomes its doc
/// comment.
pub open spec fn definition_text(name: Seq<char>, definition: JsonNode) -> Seq<char> {
    let doc = match string_member(members_of(definition), "description"@) {
        Some(d) => doc_comment(d, ""@),
        None => Seq::empty(),
    };
    if definition is Object && has_member(members_of(definition), "properties"@) {
        doc + "export interface "@ + name + " {\n"@ + properties_text(members_of(definition)) + "}\n"@
    } else {
        doc + "export type "@ + name + " = "@ + type_text(definition) + ";\n"@
    }
}

/// The definitions in order, each after a blank line.
pub open spec fn definitions_text(definitions: Seq<(String, JsonNode)>) -> Seq<char>
    decreases definitions.len(),
{
    if definitions.len() == 0 {
        Seq::empty()
    } else {
        definitions_text(definitions.drop_last()) + "\n"@ + definition_text(
            definitions.last().0@,
            definitions.last().1,
        )
    }
}

/// The head of the generated file: a note that it is generated, and the
/// protocol major.
pub open spec fn typescript_head() -> Seq<char> {
    "// Generated from the protocol types. Do not edit by hand.\n"@
        + "// Regenerate: contracts-gen; check for drift: contracts-gen --check\n\n"@
        + "/** The wire contract's major. A peer with another one is not connected. */\n"@
        + "export const PROTOCOL_MAJOR = "@ + decimal(PROTOCOL_MAJOR as nat) + ";\n"@
}

/// The TypeScript declarations for a schema: the head, then every
/// definition under `$defs`, in the order the schema keeps them (by name).
pub open spec fn typescript_text(schema: JsonNode) -> Seq<char> {
    typescript_head() + definitions_text(object_member(members_of(schema), "$defs"@))
}

/// Renders one definition.
pub fn render_definition(name: &str, definition: &JsonNode) -> (r: String)
    ensures
        r@ == definition_text(name@, *definition),
{
    let mut out = String::new();
    match definition {
        JsonNode::Object(m, _) => {
            match find_member(m, "description") {
                Some(JsonNode::Str(d)) => {
                    let doc = render_doc_comment(d.as_str(), "");
                    out.append(doc.as_str());
                },
                _ => {},
            }
            if find_member(m, "properties").is_some() {
                out.append("export interface ");
                out.append(name);
                out.append(" {\n");
                let body = render_properties(m);
                out.append(body.as_str());
                out.append("}\n");
                return out;
            }
        },
        _ => {},
    }
    out.append("export type ");
    out.append(name);
    out.append(" = ");
    let text = type_of(definition);
    out.append(text.as_str());
    out.append(";\n");
    out
}

/// Renders the TypeScript declarations of a schema.
pub fn render_typescript(schema: &JsonNode) -> (r: String)
    ensures
        r@ == typescript_text(*schema),
{
    let mut out = String::from_str("// Generated from the protocol types. Do not edit by hand.\n");
    out.append("// Regenerate: contracts-gen; check for drift: contracts-gen --check\n\n");
    out.append("/** The wire contract's major. A peer with another one is not connected. */\n");
    out.append("export const PROTOCOL_MAJOR = ");
    push_decimal(&mut out, PROTOCOL_MAJOR as u64);
    out.append(";\n");
    let ghost head = out@;
    match schema {
        JsonNode::Object(m, _) => match find_member(m, "$defs") {
            Some(JsonNode::Object(definitions, _)) => {
                let mut i: usize = 0;
                while i < definitions.len()
                    invariant
                        i <= definitions@.len(),
                        out@ == head + definitions_text(definitions@.take(i as int)),
                    decreases definitions.len() - i,
                {
                    proof {
                        assert(definitions@.take(i as int + 1).drop_last() =~= definitions@.take(i as int));
                        assert(definitions@.take(i as int + 1).last() == definitions@[i as int]);
                    }
                    out.append("\n");
                    let text = render_definition(definitions[i].0.as_str(), &definitions[i].1);
                    out.append(text.as_str());
                    i = i + 1;
                }
                proof {
                    assert(definitions@.take(definitions@.len() as int) =~= definitions@);
                }
            },
            _ => {},
        },
        _ => {},
    }
    out
}

} // verus!
