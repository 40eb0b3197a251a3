//! Body markup: tags and XML entities, and the plain text they stand for.

use crate::text::{characters, text_between};
use vstd::prelude::*;

verus! {

/// The most characters that are read as the name of one entity.
pub const MAX_ENTITY_NAME: usize = 7;

/// The number of characters of `s` before the first `c`; all of them when there is none.
pub open spec fn until(s: Seq<char>, c: char) -> int
    decreases s.len(),
{
    if s.len() == 0 || s[0] == c {
        0
    } else {
        1 + until(s.skip(1), c)
    }
}

/// What is left of `s` after its first `n` characters and the one that follows them.
pub open spec fn past(s: Seq<char>, n: int) -> Seq<char> {
    if n < s.len() {
        s.skip(n + 1)
    } else {
        Seq::empty()
    }
}

/// `s` without the slashes that it starts with.
pub open spec fn without_slashes(s: Seq<char>) -> Seq<char>
    decreases s.len(),
{
    if s.len() > 0 && s[0] == '/' {
        without_slashes(s.skip(1))
    } else {
        s
    }
}

/// Whether `c` is white space of XML.
pub open spec fn is_space(c: char) -> bool {
    c == ' ' || c == '\t' || c == '\n' || c == '\r'
}

/// Whether the text between `<` and `>` makes a line break: after any slashes its name is `br`.
/// The name ends at a slash, at white space or with the tag.
pub open spec fn is_break(tag: Seq<char>) -> bool {
    let name = without_slashes(tag);
    &&& name.len() >= 2 && name[0] == 'b' && name[1] == 'r'
    &&& name.len() == 2 || name[2] == '/' || is_space(name[2])
}

/// What a tag becomes: a newline for a line break, nothing for any other.
pub open spec fn tag_text(tag: Seq<char>) -> Seq<char> {
    if is_break(tag) {
        seq!['\n']
    } else {
        Seq::empty()
    }
}

/// Whether `c` may stand in the name of an entity: an ASCII letter or digit, or `#`.
pub open spec fn is_entity_char(c: char) -> bool {
    'a' <= c <= 'z' || 'A' <= c <= 'Z' || '0' <= c <= '9' || c == '#'
}

/// The number of characters at the start of `s` that make an entity's name, `cap` at most.
pub open spec fn name_len(s: Seq<char>, cap: nat) -> int
    decreases cap,
{
    if cap == 0 || s.len() == 0 || !is_entity_char(s[0]) {
        0
    } else {
        1 + name_len(s.skip(1), (cap - 1) as nat)
    }
}

/// What an ampersand and the name behind it become: the character, for the five entities of XML;
/// else the ampersand and the name.
pub open spec fn entity_text(name: Seq<char>) -> Seq<char> {
    if name == "amp"@ {
        seq!['&']
    } else if name == "lt"@ {
        seq!['<']
    } else if name == "gt"@ {
        seq!['>']
    } else if name == "apos"@ {
        seq!['\'']
    } else if name == "quot"@ {
        seq!['"']
    } else {
        seq!['&'] + name
    }
}

/// `s` without the semicolon that it starts with, if it does.
pub open spec fn past_semicolon(s: Seq<char>) -> Seq<char> {
    if s.len() > 0 && s[0] == ';' {
        s.skip(1)
    } else {
        s
    }
}

/// The plain text of a body with markup. A tag reaches from `<` to the next `>`, or to the end of
/// the body; an ampersand takes with it the name behind it and the semicolon behind that.
pub open spec fn plain_text(s: Seq<char>) -> Seq<char>
    decreases s.len(),
{
    if s.len() == 0 {
        Seq::empty()
    } else {
        let rest = s.skip(1);
        if s[0] == '<' {
            proof {
                lemma_until_bounds(rest, '>');
            }
            let n = until(rest, '>');
            tag_text(rest.take(n)) + plain_text(past(rest, n))
        } else if s[0] == '&' {
            proof {
                lemma_name_len_bounds(rest, MAX_ENTITY_NAME as nat);
            }
            let n = name_len(rest, MAX_ENTITY_NAME as nat);
            entity_text(rest.take(n)) + plain_text(past_semicolon(rest.skip(n)))
        } else {
            seq![s[0]] + plain_text(rest)
        }
    }
}

/// Where the first `c` stands.
pub proof fn lemma_until_bounds(s: Seq<char>, c: char)
    ensures
        0 <= until(s, c) <= s.len(),
        until(s, c) < s.len() ==> s[until(s, c)] == c,
        forall|i: int| 0 <= i < until(s, c) ==> s[i] != c,
    decreases s.len(),
{
    if s.len() > 0 && s[0] != c {
        let rest = s.skip(1);
        lemma_until_bounds(rest, c);
        assert forall|i: int| 0 <= i < until(s, c) implies s[i] != c by {
            if i > 0 {
                assert(rest[i - 1] == s[i]);
            }
        }
    }
}

/// The name of an entity is no longer than the text, nor than the cap.
pub proof fn lemma_name_len_bounds(s: Seq<char>, cap: nat)
    ensures
        0 <= name_len(s, cap) <= s.len(),
        name_len(s, cap) <= cap,
    decreases cap,
{
    if cap > 0 && s.len() > 0 && is_entity_char(s[0]) {
        lemma_name_len_bounds(s.skip(1), (cap - 1) as nat);
    }
}

/// The first place at or after `from` where `c` stands; the length of `chars` when there is none.
fn find_char(chars: &Vec<char>, from: usize, c: char) -> (at: usize)
    requires
        from <= chars@.len(),
    ensures
        from <= at <= chars@.len(),
        at == from + until(chars@.skip(from as int), c),
{
    let mut at: usize = from;
    while at < chars.len() && chars[at] != c
        invariant
            from <= at <= chars@.len(),
            until(chars@.skip(from as int), c) == at - from + until(chars@.skip(at as int), c),
        decreases chars@.len() - at,
    {
        assert(chars@.skip(at as int).skip(1) =~= chars@.skip(at + 1));
        at = at + 1;
    }
    at
}

/// Whether the text from `from` up to `to` is that of a line break tag.
fn is_break_tag(chars: &Vec<char>, from: usize, to: usize) -> (found: bool)
    requires
        from <= to <= chars@.len(),
    ensures
        found == is_break(chars@.subrange(from as int, to as int)),
{
    let mut at: usize = from;
    while at < to && chars[at] == '/'
        invariant
            from <= at <= to <= chars@.len(),
            without_slashes(chars@.subrange(from as int, to as int)) == without_slashes(
                chars@.subrange(at as int, to as int),
            ),
        decreases to - at,
    {
        assert(chars@.subrange(at as int, to as int).skip(1) =~= chars@.subrange(
            at + 1,
            to as int,
        ));
        at = at + 1;
    }
    if to - at < 2 || chars[at] != 'b' || chars[at + 1] != 'r' {
        return false;
    }
    if to - at == 2 {
        return true;
    }
    let c = chars[at + 2];
    c == '/' || c == ' ' || c == '\t' || c == '\n' || c == '\r'
}

/// Where the name of an entity that starts at `from` ends.
fn name_end(chars: &Vec<char>, from: usize) -> (end: usize)
    requires
        from <= chars@.len(),
    ensures
        from <= end <= chars@.len(),
        end == from + name_len(chars@.skip(from as int), MAX_ENTITY_NAME as nat),
{
    let mut end: usize = from;
    while end < chars.len() && end - from < MAX_ENTITY_NAME && (('a' <= chars[end] && chars[end]
        <= 'z') || ('A' <= chars[end] && chars[end] <= 'Z') || ('0' <= chars[end] && chars[end]
        <= '9') || chars[end] == '#')
        invariant
            from <= end <= chars@.len(),
            end - from <= MAX_ENTITY_NAME,
            name_len(chars@.skip(from as int), MAX_ENTITY_NAME as nat) == end - from + name_len(
                chars@.skip(end as int),
                (MAX_ENTITY_NAME - (end - from)) as nat,
            ),
        decreases chars@.len() - end,
    {
        assert(chars@.skip(end as int).skip(1) =~= chars@.skip(end + 1));
        end = end + 1;
    }
    end
}

/// Appends what an ampersand and the name behind it become.
fn push_entity(out: &mut String, name: &str)
    ensures
        final(out)@ == old(out)@ + entity_text(name@),
{
    if *name == *"amp" {
        out.push('&');
    } else if *name == *"lt" {
        out.push('<');
    } else if *name == *"gt" {
        out.push('>');
    } else if *name == *"apos" {
        out.push('\'');
    } else if *name == *"quot" {
        out.push('"');
    } else {
        out.push('&');
        out.append(name);
    }
    assert(out@ =~= old(out)@ + entity_text(name@));
}

/// Strips body markup (`<b> <i> <u> <a> <img>` and whatever else clients send) down to plain
/// text: tags are dropped, `<br>` becomes a newline, the five XML entities are unescaped.
pub fn strip_markup(body: &str) -> (out: String)
    ensures
        out@ == plain_text(body@),
{
    let chars = characters(body);
    let mut out = String::new();
    let mut at: usize = 0;
    assert(chars@.skip(0) =~= chars@);
    while at < chars.len()
        invariant
            at <= chars@.len(),
            plain_text(chars@) =~= out@ + plain_text(chars@.skip(at as int)),
        decreases chars@.len() - at,
    {
        let ghost left = chars@.skip(at as int);
        let ghost rest = left.skip(1);
        assert(rest =~= chars@.skip(at + 1));
        let c = chars[at];
        if c == '<' {
            let end = find_char(&chars, at + 1, '>');
            assert(rest.take(end - at - 1) =~= chars@.subrange(at + 1, end as int));
            if is_break_tag(&chars, at + 1, end) {
                out.push('\n');
            }
            if end < chars.len() {
                assert(past(rest, end - at - 1) =~= chars@.skip(end + 1));
                at = end + 1;
            } else {
                assert(past(rest, end - at - 1) =~= chars@.skip(end as int));
                at = end;
            }
        } else if c == '&' {
            let end = name_end(&chars, at + 1);
            let name = text_between(&chars, at + 1, end);
            assert(rest.take(end - at - 1) =~= name@);
            push_entity(&mut out, name.as_str());
            assert(rest.skip(end - at - 1) =~= chars@.skip(end as int));
            if end < chars.len() && chars[end] == ';' {
                assert(chars@.skip(end as int).skip(1) =~= chars@.skip(end + 1));
                at = end + 1;
            } else {
                at = end;
            }
        } else {
            out.push(c);
            at = at + 1;
        }
    }
    assert(chars@.skip(at as int) =~= Seq::<char>::empty());
    out
}

/// Whether `s` holds no markup: neither `<` nor `&`.
pub open spec fn is_unmarked(s: Seq<char>) -> bool {
    forall|i: int| 0 <= i < s.len() ==> s[i] != '<' && s[i] != '&'
}

/// Text without markup in front of a body is kept as it is.
pub proof fn law_unmarked_text_is_kept(text: Seq<char>, body: Seq<char>)
    requires
        is_unmarked(text),
    ensures
        plain_text(text + body) == text + plain_text(body),
        plain_text(text) == text,
    decreases text.len(),
{
    if text.len() == 0 {
        assert(text + body =~= body);
    } else {
        let rest = text.skip(1);
        assert(is_unmarked(rest)) by {
            assert forall|i: int| 0 <= i < rest.len() implies rest[i] != '<' && rest[i] != '&' by {
                assert(rest[i] == text[i + 1]);
            }
        }
        law_unmarked_text_is_kept(rest, body);
        assert((text + body).skip(1) =~= rest + body);
        assert(seq![text[0]] + rest =~= text);
        assert(plain_text(text + body) =~= text + plain_text(body));
    }
}

/// A tag is dropped, or becomes a newline if it is a line break, and the text behind it is
/// stripped as if it stood alone.
pub proof fn law_tag_is_dropped(tag: Seq<char>, body: Seq<char>)
    requires
        !tag.contains('>'),
    ensures
        plain_text(seq!['<'] + tag + seq!['>'] + body) == tag_text(tag) + plain_text(body),
{
    let s = seq!['<'] + tag + seq!['>'] + body;
    let rest = s.skip(1);
    assert(rest =~= tag + seq!['>'] + body);
    lemma_until_bounds(rest, '>');
    let n = until(rest, '>');
    assert(rest[tag.len() as int] == '>');
    if n < tag.len() {
        assert(tag[n] == rest[n]);
        assert(false);
    }
    assert(n == tag.len());
    assert(rest.take(n) =~= tag);
    assert(past(rest, n) =~= body);
}

/// A tag that is never closed hides the rest of the body.
pub proof fn law_open_tag_hides_the_rest(tag: Seq<char>)
    requires
        !tag.contains('>'),
    ensures
        plain_text(seq!['<'] + tag) == tag_text(tag),
{
    let rest = (seq!['<'] + tag).skip(1);
    assert(rest =~= tag);
    lemma_until_bounds(tag, '>');
    let n = until(tag, '>');
    assert(n == tag.len());
    assert(tag.take(n) =~= tag);
    assert(plain_text(past(tag, n)) =~= Seq::<char>::empty());
    assert(plain_text(seq!['<'] + tag) =~= tag_text(tag));
}

/// The plain text is never longer than the body.
pub proof fn law_plain_text_is_no_longer(body: Seq<char>)
    ensures
        plain_text(body).len() <= body.len(),
    decreases body.len(),
{
    if body.len() > 0 {
        let rest = body.skip(1);
        if body[0] == '<' {
            lemma_until_bounds(rest, '>');
            law_plain_text_is_no_longer(past(rest, until(rest, '>')));
        } else if body[0] == '&' {
            let cap = MAX_ENTITY_NAME as nat;
            lemma_name_len_bounds(rest, cap);
            law_plain_text_is_no_longer(past_semicolon(rest.skip(name_len(rest, cap))));
        } else {
            law_plain_text_is_no_longer(rest);
        }
    }
}

/// How a character is written in a body: the five special ones as XML entities.
pub open spec fn escaped_char(c: char) -> Seq<char> {
    if c == '&' {
        "&amp;"@
    } else if c == '<' {
        "&lt;"@
    } else if c == '>' {
        "&gt;"@
    } else if c == '\'' {
        "&apos;"@
    } else if c == '"' {
        "&quot;"@
    } else {
        seq![c]
    }
}

/// A text written as a body, with its special characters escaped.
pub open spec fn escaped(text: Seq<char>) -> Seq<char>
    decreases text.len(),
{
    if text.len() == 0 {
        Seq::empty()
    } else {
        escaped_char(text[0]) + escaped(text.skip(1))
    }
}

/// A reference that is written out in full becomes its text (a character for the five entities of
/// XML, else the ampersand and the name), and what is behind it is stripped as if it stood alone.
pub proof fn law_entity_is_replaced(name: Seq<char>, body: Seq<char>)
    requires
        name.len() <= MAX_ENTITY_NAME,
        forall|i: int| 0 <= i < name.len() ==> is_entity_char(name[i]),
    ensures
        plain_text(seq!['&'] + name + seq![';'] + body) == entity_text(name) + plain_text(body),
{
    let s = seq!['&'] + name + seq![';'] + body;
    let rest = s.skip(1);
    assert(rest =~= name + seq![';'] + body);
    lemma_name_len_of_name(name, body, MAX_ENTITY_NAME as nat);
    assert(rest.take(name.len() as int) =~= name);
    assert(rest.skip(name.len() as int) =~= seq![';'] + body);
    assert(past_semicolon(seq![';'] + body) =~= body);
}

/// A name ends at the semicolon behind it.
proof fn lemma_name_len_of_name(name: Seq<char>, body: Seq<char>, cap: nat)
    requires
        name.len() <= cap,
        forall|i: int| 0 <= i < name.len() ==> is_entity_char(name[i]),
    ensures
        name_len(name + seq![';'] + body, cap) == name.len(),
    decreases name.len(),
{
    let s = name + seq![';'] + body;
    if name.len() == 0 {
        assert(s[0] == ';');
    } else {
        assert(s[0] == name[0]);
        assert(s.skip(1) =~= name.skip(1) + seq![';'] + body);
        lemma_name_len_of_name(name.skip(1), body, (cap - 1) as nat);
    }
}

/// Stripping a body gives back the text that was escaped to make it.
pub proof fn law_stripping_undoes_escaping(text: Seq<char>)
    ensures
        plain_text(escaped(text)) == text,
    decreases text.len(),
{
    if text.len() == 0 {
        assert(plain_text(escaped(text)) =~= text);
    } else {
        let c = text[0];
        let body = escaped(text.skip(1));
        law_stripping_undoes_escaping(text.skip(1));
        lemma_escaped_char(c, body);
        assert(seq![c] + text.skip(1) =~= text);
    }
}

/// Stripping gives back one escaped character.
proof fn lemma_escaped_char(c: char, body: Seq<char>)
    ensures
        plain_text(escaped_char(c) + body) == seq![c] + plain_text(body),
{
    reveal_strlit("amp");
    reveal_strlit("lt");
    reveal_strlit("gt");
    reveal_strlit("apos");
    reveal_strlit("quot");
    reveal_strlit("&amp;");
    reveal_strlit("&lt;");
    reveal_strlit("&gt;");
    reveal_strlit("&apos;");
    reveal_strlit("&quot;");
    if c == '&' {
        assert("&amp;"@ =~= seq!['&'] + "amp"@ + seq![';']);
        law_entity_is_replaced("amp"@, body);
    } else if c == '<' {
        assert("&lt;"@ =~= seq!['&'] + "lt"@ + seq![';']);
        law_entity_is_replaced("lt"@, body);
        assert("lt"@.len() != "amp"@.len());
    } else if c == '>' {
        assert("&gt;"@ =~= seq!['&'] + "gt"@ + seq![';']);
        law_entity_is_replaced("gt"@, body);
        assert("gt"@.len() != "amp"@.len());
        assert("gt"@[0] != "lt"@[0]);
    } else if c == '\'' {
        assert("&apos;"@ =~= seq!['&'] + "apos"@ + seq![';']);
        law_entity_is_replaced("apos"@, body);
        assert("apos"@.len() != "amp"@.len());
        assert("apos"@.len() != "lt"@.len());
        assert("apos"@.len() != "gt"@.len());
    } else if c == '"' {
        assert("&quot;"@ =~= seq!['&'] + "quot"@ + seq![';']);
        law_entity_is_replaced("quot"@, body);
        assert("quot"@.len() != "amp"@.len());
        assert("quot"@.len() != "lt"@.len());
        assert("quot"@.len() != "gt"@.len());
        assert("quot"@[0] != "apos"@[0]);
    } else {
        assert((seq![c] + body).skip(1) =~= body);
    }
}

/// What is left behind the slashes that a text starts with.
proof fn lemma_without_slashes(tag: Seq<char>, start: int)
    requires
        0 <= start <= tag.len(),
        forall|i: int| 0 <= i < start ==> tag[i] == '/',
        start < tag.len() ==> tag[start] != '/',
    ensures
        without_slashes(tag) == tag.skip(start),
    decreases start,
{
    if start > 0 {
        let rest = tag.skip(1);
        assert forall|i: int| 0 <= i < start - 1 implies rest[i] == '/' by {
            assert(rest[i] == tag[i + 1]);
        }
        lemma_without_slashes(rest, start - 1);
        assert(rest.skip(start - 1) =~= tag.skip(start));
    } else {
        assert(tag.skip(0) =~= tag);
    }
}

/// A tag named `br` becomes a newline and any other tag becomes nothing, whether it is closed or
/// not. The name, from `start` to `end`, stands behind the slashes that the tag starts with, and
/// ends at a slash, at white space or with the tag.
pub proof fn law_only_br_breaks_the_line(tag: Seq<char>, start: int, end: int, body: Seq<char>)
    requires
        forall|i: int| 0 <= i < tag.len() ==> tag[i] != '>',
        0 <= start <= end <= tag.len(),
        forall|i: int| 0 <= i < start ==> tag[i] == '/',
        start < tag.len() ==> tag[start] != '/',
        forall|i: int|
            start <= i < end ==> tag[i] != '/' && tag[i] != ' ' && tag[i] != '\t' && tag[i] != '\n'
                && tag[i] != '\r',
        end < tag.len() ==> tag[end] == '/' || tag[end] == ' ' || tag[end] == '\t' || tag[end]
            == '\n' || tag[end] == '\r',
    ensures
        tag.subrange(start, end) == seq!['b', 'r'] ==> {
            &&& plain_text(seq!['<'] + tag + seq!['>'] + body) == seq!['\n'] + plain_text(body)
            &&& plain_text(seq!['<'] + tag) == seq!['\n']
        },
        tag.subrange(start, end) != seq!['b', 'r'] ==> {
            &&& plain_text(seq!['<'] + tag + seq!['>'] + body) == plain_text(body)
            &&& plain_text(seq!['<'] + tag) == Seq::<char>::empty()
        },
{
    law_tag_is_dropped(tag, body);
    law_open_tag_hides_the_rest(tag);
    lemma_without_slashes(tag, start);
    let name = tag.skip(start);
    let own = tag.subrange(start, end);
    assert forall|i: int| 0 <= i < own.len() implies own[i] == name[i] && own[i] == tag[start
        + i] by {}
    if own == seq!['b', 'r'] {
        assert(own.len() == 2);
        assert(name[0] == own[0] && name[1] == own[1]);
        if name.len() > 2 {
            assert(name[2] == tag[end]);
        }
        assert(is_break(tag));
    } else {
        if is_break(tag) {
            assert(name[0] == tag[start] && name[1] == tag[start + 1]);
            if name.len() > 2 {
                assert(name[2] == tag[start + 2]);
            }
            if end < start + 2 {
                assert(tag[end] == name[end - start]);
                assert(false);
            }
            if end > start + 2 {
                assert(tag[start + 2] != '/');
                assert(false);
            }
            assert(own =~= seq!['b', 'r']);
        }
        assert(tag_text(tag) + plain_text(body) =~= plain_text(body));
    }
}

/// A character that opens neither a tag nor a reference stands for itself, and nothing stands for
/// nothing.
pub proof fn law_plain_characters_are_kept(c: char, body: Seq<char>)
    requires
        c != '<',
        c != '&',
    ensures
        plain_text(seq![c] + body) == seq![c] + plain_text(body),
        plain_text(Seq::<char>::empty()) == Seq::<char>::empty(),
{
    assert((seq![c] + body).skip(1) =~= body);
}

/// The name at the start of a text ends where no letter, digit or `#` follows, or at seven
/// characters.
proof fn lemma_name_len(name: Seq<char>, tail: Seq<char>, cap: nat)
    requires
        name.len() <= cap,
        forall|i: int| 0 <= i < name.len() ==> is_entity_char(name[i]),
        tail.len() == 0 || name.len() == cap || !is_entity_char(tail[0]),
    ensures
        name_len(name + tail, cap) == name.len(),
    decreases name.len(),
{
    let s = name + tail;
    if name.len() == 0 {
        assert(s =~= tail);
    } else {
        assert(s[0] == name[0]);
        assert(s.skip(1) =~= name.skip(1) + tail);
        lemma_name_len(name.skip(1), tail, (cap - 1) as nat);
    }
}

/// An ampersand takes with it the letters, digits and `#` behind it, seven at most, and a semicolon
/// behind those. `amp`, `lt`, `gt`, `apos` and `quot` become their characters; any other name is
/// kept with its ampersand.
pub proof fn law_references_are_unescaped(name: Seq<char>, tail: Seq<char>)
    requires
        name.len() <= 7,
        forall|i: int|
            0 <= i < name.len() ==> 'a' <= name[i] <= 'z' || 'A' <= name[i] <= 'Z' || '0' <= name[i]
                <= '9' || name[i] == '#',
        tail.len() == 0 || name.len() == 7 || !('a' <= tail[0] <= 'z' || 'A' <= tail[0] <= 'Z'
            || '0' <= tail[0] <= '9' || tail[0] == '#'),
    ensures
        ({
            let text = if name == seq!['a', 'm', 'p'] {
                seq!['&']
            } else if name == seq!['l', 't'] {
                seq!['<']
            } else if name == seq!['g', 't'] {
                seq!['>']
            } else if name == seq!['a', 'p', 'o', 's'] {
                seq!['\'']
            } else if name == seq!['q', 'u', 'o', 't'] {
                seq!['"']
            } else {
                seq!['&'] + name
            };
            let rest = if tail.len() > 0 && tail[0] == ';' {
                tail.skip(1)
            } else {
                tail
            };
            plain_text(seq!['&'] + name + tail) == text + plain_text(rest)
        }),
{
    reveal_strlit("amp");
    reveal_strlit("lt");
    reveal_strlit("gt");
    reveal_strlit("apos");
    reveal_strlit("quot");
    assert("amp"@ =~= seq!['a', 'm', 'p']);
    assert("lt"@ =~= seq!['l', 't']);
    assert("gt"@ =~= seq!['g', 't']);
    assert("apos"@ =~= seq!['a', 'p', 'o', 's']);
    assert("quot"@ =~= seq!['q', 'u', 'o', 't']);
    let s = seq!['&'] + name + tail;
    let behind = s.skip(1);
    assert(behind =~= name + tail);
    lemma_name_len(name, tail, 7);
    assert(behind.take(name.len() as int) =~= name);
    assert(behind.skip(name.len() as int) =~= tail);
}

} // verus!
