//! The envelope of a query: the text that carries the type of the query, its
//! term and its options to the server.

use crate::opts::names;
use vstd::prelude::*;
use vstd::string::StrSliceExecFns;

verus! {

/// The types of query of the protocol.
#[derive(Clone, Copy, Debug, PartialEq, Eq, Structural)]
pub enum QueryType {
    Start,
    Continue,
    Stop,
    NoreplyWait,
    ServerInfo,
}

impl QueryType {
    /// The number of the type in the protocol.
    pub open spec fn code(self) -> int {
        match self {
            QueryType::Start => 1,
            QueryType::Continue => 2,
            QueryType::Stop => 3,
            QueryType::NoreplyWait => 4,
            QueryType::ServerInfo => 5,
        }
    }

    /// The number of the type, as the one digit that it is written with.
    pub open spec fn digit(self) -> char {
        match self {
            QueryType::Start => '1',
            QueryType::Continue => '2',
            QueryType::Stop => '3',
            QueryType::NoreplyWait => '4',
            QueryType::ServerInfo => '5',
        }
    }

    /// The number of the type in the protocol.
    pub fn value(&self) -> (r: i32)
        ensures
            r == self.code(),
    {
        match self {
            QueryType::Start => 1,
            QueryType::Continue => 2,
            QueryType::Stop => 3,
            QueryType::NoreplyWait => 4,
            QueryType::ServerInfo => 5,
        }
    }

    /// The digit of the type as a text.
    fn text(&self) -> (r: &'static str)
        ensures
            r@ == seq![self.digit()],
    {
        proof {
            reveal_strlit("1");
            reveal_strlit("2");
            reveal_strlit("3");
            reveal_strlit("4");
            reveal_strlit("5");
        }
        let r = match self {
            QueryType::Start => "1",
            QueryType::Continue => "2",
            QueryType::Stop => "3",
            QueryType::NoreplyWait => "4",
            QueryType::ServerInfo => "5",
        };
        assert(r@ =~= seq![self.digit()]);
        r
    }
}

/// A part of an envelope after the type: a comma and the text, or nothing.
pub open spec fn part(text: Option<Seq<char>>) -> Seq<char> {
    match text {
        Some(text) => seq![','] + text,
        None => Seq::empty(),
    }
}

/// The envelope: an opening bracket, the number of the type, the term and the
/// options, each behind a comma where it is there, and a closing bracket.
pub open spec fn envelope(
    query_type: QueryType,
    query: Option<Seq<char>>,
    options: Option<Seq<char>>,
) -> Seq<char> {
    seq!['['] + seq![query_type.digit()] + part(query) + part(options) + seq![']']
}

/// The text of a string, where there is one.
pub open spec fn text_of(text: Option<String>) -> Option<Seq<char>> {
    match text {
        Some(text) => Some(text@),
        None => None,
    }
}

/// Wraps a query for the wire.
pub fn wrap_query(query_type: QueryType, query: Option<String>, options: Option<String>) -> (r: String)
    ensures
        r@ == envelope(query_type, text_of(query), text_of(options)),
{
    proof {
        reveal_strlit("[");
        reveal_strlit(",");
        reveal_strlit("]");
    }
    let mut qry = String::from_str("[");
    assert(qry@ =~= seq!['[']);
    qry.append(query_type.text());
    match &query {
        Some(query) => {
            qry.append(",");
            qry.append(query.as_str());
        },
        None => {},
    }
    assert(qry@ =~= seq!['['] + seq![query_type.digit()] + part(text_of(query)));
    match &options {
        Some(options) => {
            qry.append(",");
            qry.append(options.as_str());
        },
        None => {},
    }
    assert(qry@ =~= seq!['['] + seq![query_type.digit()] + part(text_of(query)) + part(
        text_of(options),
    ));
    qry.append("]");
    assert(qry@ =~= envelope(query_type, text_of(query), text_of(options)));
    qry
}

/// Where a reader of an envelope stands: how many brackets and braces are
/// open, whether it is inside a string, and whether the last character of the
/// string was a backslash that escapes the next.
pub struct Scan {
    pub depth: int,
    pub quoted: bool,
    pub escaped: bool,
}

/// Outside every bracket, brace and string.
pub open spec fn outside() -> Scan {
    Scan { depth: 0, quoted: false, escaped: false }
}

/// Where the reader stands after one more character.
pub open spec fn after(state: Scan, c: char) -> Scan {
    if state.quoted {
        if state.escaped {
            Scan { escaped: false, ..state }
        } else if c == '\\' {
            Scan { escaped: true, ..state }
        } else if c == '"' {
            Scan { quoted: false, ..state }
        } else {
            state
        }
    } else if c == '"' {
        Scan { quoted: true, ..state }
    } else if c == '[' || c == '{' {
        Scan { depth: state.depth + 1, ..state }
    } else if c == ']' || c == '}' {
        Scan { depth: state.depth - 1, ..state }
    } else {
        state
    }
}

/// Where the reader stands after the first `upto` characters of a text.
pub open spec fn scanned_from(state: Scan, text: Seq<char>, upto: int) -> Scan
    decreases upto,
{
    if upto <= 0 || upto > text.len() {
        state
    } else {
        after(scanned_from(state, text, upto - 1), text[upto - 1])
    }
}

/// Where a reader that began outside stands after the first `upto` characters.
pub open spec fn scanned(text: Seq<char>, upto: int) -> Scan {
    scanned_from(outside(), text, upto)
}

/// Whether the character at `at` is a comma outside every bracket, brace and
/// string: one that parts two items.
pub open spec fn splits_at(text: Seq<char>, at: int) -> bool {
    0 <= at < text.len() && text[at] == ',' && scanned(text, at) == outside()
}

/// Whether a text is one item: it closes what it opens, and no comma of it
/// stands outside every bracket, brace and string.
pub open spec fn whole(text: Seq<char>) -> bool {
    &&& scanned(text, text.len() as int) == outside()
    &&& forall|at: int| 0 <= at < text.len() ==> !#[trigger] splits_at(text, at)
}

/// The items of the first `upto` characters of a text: what stands between
/// the commas that part items.
pub open spec fn pieces(text: Seq<char>, upto: int) -> Seq<Seq<char>>
    decreases upto,
{
    if upto <= 0 || upto > text.len() {
        seq![Seq::<char>::empty()]
    } else {
        let before = pieces(text, upto - 1);
        if splits_at(text, upto - 1) {
            before.push(Seq::empty())
        } else {
            before.update(before.len() - 1, before.last().push(text[upto - 1]))
        }
    }
}

/// What an envelope holds: the items between its brackets, where it has
/// brackets and closes what it opens between them.
pub open spec fn unwrapped(text: Seq<char>) -> Option<Seq<Seq<char>>> {
    let inner = text.subrange(1, text.len() - 1);
    if text.len() >= 2 && text[0] == '[' && text.last() == ']' && scanned(
        inner,
        inner.len() as int,
    ) == outside() {
        Some(pieces(inner, inner.len() as int))
    } else {
        None
    }
}

/// An item as a list: of one item, or of none.
pub open spec fn listed(text: Option<Seq<char>>) -> Seq<Seq<char>> {
    match text {
        Some(text) => seq![text],
        None => Seq::empty(),
    }
}

/// There is always an item, if an empty one.
pub proof fn lemma_pieces_len(text: Seq<char>, upto: int)
    ensures
        pieces(text, upto).len() >= 1,
    decreases upto,
{
    if 0 < upto <= text.len() {
        lemma_pieces_len(text, upto - 1);
    }
}

/// What follows the characters read does not matter to where the reader
/// stands.
proof fn lemma_scanned_prefix(state: Scan, a: Seq<char>, b: Seq<char>, upto: int)
    requires
        0 <= upto <= a.len(),
    ensures
        scanned_from(state, a + b, upto) == scanned_from(state, a, upto),
    decreases upto,
{
    if upto > 0 {
        lemma_scanned_prefix(state, a, b, upto - 1);
        assert((a + b)[upto - 1] == a[upto - 1]);
    }
}

/// Reading two texts one after the other is reading the second from where the
/// first left off.
proof fn lemma_scanned_concat(state: Scan, a: Seq<char>, b: Seq<char>, upto: int)
    requires
        0 <= upto <= b.len(),
    ensures
        scanned_from(state, a + b, a.len() + upto) == scanned_from(
            scanned_from(state, a, a.len() as int),
            b,
            upto,
        ),
    decreases upto,
{
    if upto > 0 {
        lemma_scanned_concat(state, a, b, upto - 1);
        assert((a + b)[a.len() + upto - 1] == b[upto - 1]);
    } else {
        lemma_scanned_prefix(state, a, b, a.len() as int);
    }
}

/// What follows the characters read does not matter to their items.
proof fn lemma_pieces_prefix(a: Seq<char>, b: Seq<char>, upto: int)
    requires
        0 <= upto <= a.len(),
    ensures
        pieces(a + b, upto) == pieces(a, upto),
    decreases upto,
{
    if upto > 0 {
        lemma_pieces_prefix(a, b, upto - 1);
        lemma_scanned_prefix(outside(), a, b, upto - 1);
        assert((a + b)[upto - 1] == a[upto - 1]);
    }
}

/// A text that is one item, behind a text that ends outside, goes to the
/// last item of that text.
proof fn lemma_pieces_whole(a: Seq<char>, text: Seq<char>, upto: int)
    requires
        scanned(a, a.len() as int) == outside(),
        whole(text),
        0 <= upto <= text.len(),
    ensures
        pieces(a + text, a.len() + upto) == pieces(a, a.len() as int).update(
            pieces(a, a.len() as int).len() - 1,
            pieces(a, a.len() as int).last() + text.subrange(0, upto),
        ),
    decreases upto,
{
    let all = a + text;
    let before = pieces(a, a.len() as int);
    lemma_pieces_len(a, a.len() as int);
    if upto == 0 {
        lemma_pieces_prefix(a, text, a.len() as int);
        assert(before.last() + text.subrange(0, 0) =~= before.last());
        assert(before.update(before.len() - 1, before.last()) =~= before);
    } else {
        lemma_pieces_whole(a, text, upto - 1);
        lemma_scanned_concat(outside(), a, text, upto - 1);
        assert(all[a.len() + upto - 1] == text[upto - 1]);
        assert(!splits_at(text, upto - 1));
        assert(!splits_at(all, a.len() + upto - 1));
        assert(text.subrange(0, upto - 1).push(text[upto - 1]) =~= text.subrange(0, upto));
        assert((before.last() + text.subrange(0, upto - 1)).push(text[upto - 1]) =~= before.last()
            + text.subrange(0, upto));
        let so_far = pieces(all, a.len() + upto - 1);
        assert(so_far.update(so_far.len() - 1, so_far.last().push(all[a.len() + upto - 1]))
            =~= before.update(before.len() - 1, before.last() + text.subrange(0, upto)));
    }
}

/// A part of an envelope, behind a text that ends outside, adds its item to
/// the items of that text, and ends outside.
proof fn lemma_pieces_part(a: Seq<char>, text: Option<Seq<char>>)
    requires
        scanned(a, a.len() as int) == outside(),
        text matches Some(t) ==> whole(t),
    ensures
        pieces(a + part(text), (a + part(text)).len() as int) == pieces(a, a.len() as int)
            + listed(text),
        scanned(a + part(text), (a + part(text)).len() as int) == outside(),
{
    match text {
        Some(t) => {
            let comma = a + seq![','];
            lemma_pieces_prefix(a, seq![','], a.len() as int);
            lemma_scanned_prefix(outside(), a, seq![','], a.len() as int);
            assert(comma[a.len() as int] == ',');
            assert(splits_at(comma, a.len() as int));
            assert(pieces(comma, comma.len() as int) == pieces(a, a.len() as int).push(
                Seq::empty(),
            ));
            assert(scanned(comma, comma.len() as int) == outside());
            lemma_pieces_whole(comma, t, t.len() as int);
            lemma_scanned_concat(outside(), comma, t, t.len() as int);
            assert(a + part(text) =~= comma + t);
            assert(t.subrange(0, t.len() as int) =~= t);
            assert(Seq::<char>::empty() + t =~= t);
            let items = pieces(comma, comma.len() as int);
            assert(items.update(items.len() - 1, t) =~= pieces(a, a.len() as int) + listed(text));
        },
        None => {
            assert(a + part(text) =~= a);
            assert(pieces(a, a.len() as int) + listed(text) =~= pieces(a, a.len() as int));
        },
    }
}

/// An envelope holds what was wrapped: the number of the type, then the term
/// and the options, as far as they were given and each is one item.
pub proof fn lemma_envelope_unwraps(
    query_type: QueryType,
    query: Option<Seq<char>>,
    options: Option<Seq<char>>,
)
    requires
        query matches Some(text) ==> whole(text),
        options matches Some(text) ==> whole(text),
    ensures
        unwrapped(envelope(query_type, query, options)) == Some(
            seq![seq![query_type.digit()]] + listed(query) + listed(options),
        ),
{
    let digit = seq![query_type.digit()];
    let text = envelope(query_type, query, options);
    let inner = text.subrange(1, text.len() - 1);
    assert(inner =~= digit + part(query) + part(options));
    assert(pieces(digit, 1) == seq![digit]) by {
        assert(!splits_at(digit, 0));
        assert(pieces(digit, 0) == seq![Seq::<char>::empty()]);
        assert(Seq::<char>::empty().push(digit[0]) =~= digit);
        assert(seq![Seq::<char>::empty()].update(0, digit) =~= seq![digit]);
    }
    assert(scanned(digit, 1) == outside()) by {
        assert(scanned(digit, 0) == outside());
    }
    lemma_pieces_part(digit, query);
    lemma_pieces_part(digit + part(query), options);
}

/// Unwraps an envelope: the items between its brackets, parted at the commas
/// that stand outside every bracket, brace and string. A text without the
/// brackets, or one that does not close what it opens, is no envelope.
pub fn unwrap_query(text: &str) -> (r: Option<Vec<String>>)
    ensures
        match r {
            Some(items) => unwrapped(text@) == Some(names(items@)),
            None => unwrapped(text@) is None,
        },
{
    let n = text.unicode_len();
    if n < 2 {
        return None;
    }
    if text.get_char(0) != '[' || text.get_char(n - 1) != ']' {
        return None;
    }
    let ghost inner = text@.subrange(1, n - 1);
    let mut items: Vec<String> = Vec::new();
    let mut depth: i128 = 0;
    let mut quoted = false;
    let mut escaped = false;
    let mut begin: usize = 1;
    let mut i: usize = 1;
    assert(inner.subrange(0, 0) =~= Seq::<char>::empty());
    assert(names(items@).push(inner.subrange(0, 0)) =~= seq![Seq::<char>::empty()]);
    while i < n - 1
        invariant
            1 <= begin <= i <= n - 1,
            n == text@.len(),
            inner == text@.subrange(1, n - 1),
            scanned(inner, i - 1) == (Scan { depth: depth as int, quoted, escaped }),
            -(i as int) <= depth <= i,
            pieces(inner, i - 1) == names(items@).push(inner.subrange(begin - 1, i - 1)),
        decreases n - i,
    {
        let c = text.get_char(i);
        assert(inner[i - 1] == c);
        let ghost before = pieces(inner, i - 1);
        if c == ',' && depth == 0 && !quoted && !escaped {
            let ghost done = names(items@);
            items.push(String::from_str(text.substring_char(begin, i)));
            assert(text@.subrange(begin as int, i as int) =~= inner.subrange(begin - 1, i - 1));
            assert(names(items@) =~= before);
            begin = i + 1;
            assert(inner.subrange(begin - 1, i as int) =~= Seq::<char>::empty());
        } else {
            assert(inner.subrange(begin - 1, i - 1).push(c) =~= inner.subrange(begin - 1, i as int));
            assert(before.update(before.len() - 1, before.last().push(c)) =~= names(items@).push(
                inner.subrange(begin - 1, i as int),
            ));
        }
        if quoted {
            if escaped {
                escaped = false;
            } else if c == '\\' {
                escaped = true;
            } else if c == '"' {
                quoted = false;
            }
        } else if c == '"' {
            quoted = true;
        } else if c == '[' || c == '{' {
            depth = depth + 1;
        } else if c == ']' || c == '}' {
            depth = depth - 1;
        }
        i += 1;
    }
    if depth != 0 || quoted || escaped {
        return None;
    }
    items.push(String::from_str(text.substring_char(begin, n - 1)));
    assert(text@.subrange(begin as int, n - 1) =~= inner.subrange(begin - 1, n - 2));
    assert(names(items@) =~= pieces(inner, inner.len() as int));
    Some(items)
}

} // verus!
