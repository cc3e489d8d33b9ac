//! The textual document that persists a project store, and the smaller
//! document that holds the application configuration.
//!
//! The layout is fixed: an empty store is the single line `projects = []`,
//! and a populated store is a sequence of records, one `[[projects]]`
//! header plus a `name = "..."` line each, separated by blank lines.
//! Quotes and backslashes inside a name are escaped with a backslash;
//! every other character stands as itself.  A blank document — one with
//! no `projects` entry at all — also reads as the empty store.
//! Rendering and parsing are exact inverses, which is proved here;
//! beyond that, reading accepts exactly the canonical layout, a
//! deliberate narrowing documented at `parse_document`.

use vstd::prelude::*;
use vstd::string::StrSliceExecFns;

verus! {

// ---------------------------------------------------------------------
// Escaping of quoted values
// ---------------------------------------------------------------------

/// One character as it appears inside a quoted value.
pub open spec fn escape_char(c: char) -> Seq<char> {
    if c == '"' || c == '\\' {
        seq!['\\', c]
    } else {
        seq![c]
    }
}

/// A whole value as it appears between the quotes.
pub open spec fn escape(s: Seq<char>) -> Seq<char>
    decreases s.len(),
{
    if s.len() == 0 {
        Seq::empty()
    } else {
        escape_char(s[0]) + escape(s.drop_first())
    }
}

/// The opening of every record: a table header and the key of the name.
pub open spec fn record_header() -> Seq<char> {
    "[[projects]]\nname = \""@
}

/// The whole document of a store without records.
pub open spec fn empty_document() -> Seq<char> {
    "projects = []\n"@
}

/// The records `ns[i..]`, rendered and separated by blank lines.
pub open spec fn render_records(ns: Seq<Seq<char>>, i: int) -> Seq<char>
    decreases ns.len() - i,
{
    if i < 0 || i >= ns.len() {
        Seq::empty()
    } else {
        let block = record_header() + escape(ns[i]) + seq!['"', '\n'];
        if i + 1 == ns.len() {
            block
        } else {
            block + seq!['\n'] + render_records(ns, i + 1)
        }
    }
}

/// The canonical document of a store whose record names are `ns`.
pub open spec fn render(ns: Seq<Seq<char>>) -> Seq<char> {
    if ns.len() == 0 {
        empty_document()
    } else {
        render_records(ns, 0)
    }
}

// ---------------------------------------------------------------------
// Parsing
// ---------------------------------------------------------------------

/// Reads a quoted value up to and including its closing quote: the value
/// and what follows the quote.  A backslash must be followed by a quote
/// or a second backslash; anything else after it is a malformation.
pub open spec fn parse_string(s: Seq<char>) -> Option<(Seq<char>, Seq<char>)>
    decreases s.len(),
{
    if s.len() == 0 {
        None
    } else if s[0] == '"' {
        Some((Seq::empty(), s.drop_first()))
    } else if s[0] == '\\' {
        if s.len() >= 2 && (s[1] == '"' || s[1] == '\\') {
            match parse_string(s.skip(2)) {
                Some(p) => Some((seq![s[1]] + p.0, p.1)),
                None => None,
            }
        } else {
            None
        }
    } else {
        match parse_string(s.drop_first()) {
            Some(p) => Some((seq![s[0]] + p.0, p.1)),
            None => None,
        }
    }
}

/// Whatever follows a parsed value is shorter than the input.
pub proof fn lemma_parse_string_shrinks(s: Seq<char>)
    ensures
        parse_string(s) matches Some(p) ==> p.1.len() < s.len(),
    decreases s.len(),
{
    if s.len() == 0 {
    } else if s[0] == '"' {
    } else if s[0] == '\\' {
        if s.len() >= 2 && (s[1] == '"' || s[1] == '\\') {
            lemma_parse_string_shrinks(s.skip(2));
        }
    } else {
        lemma_parse_string_shrinks(s.drop_first());
    }
}

/// Reads one or more records.  `None` is any malformation: a missing
/// header, an unterminated value, a stray escape, or text where a
/// record separator should stand.
pub open spec fn parse_records(s: Seq<char>) -> Option<Seq<Seq<char>>>
    decreases s.len(),
{
    if s.len() < record_header().len() || s.take(record_header().len() as int)
        != record_header() {
        None
    } else {
        let rest0 = s.skip(record_header().len() as int);
        proof {
            lemma_parse_string_shrinks(rest0);
        }
        match parse_string(rest0) {
            None => None,
            Some((name, rest1)) => {
                if rest1.len() == 0 || rest1[0] != '\n' {
                    None
                } else {
                    let rest2 = rest1.drop_first();
                    if rest2.len() == 0 {
                        Some(seq![name])
                    } else if rest2[0] != '\n' {
                        None
                    } else {
                        match parse_records(rest2.drop_first()) {
                            None => None,
                            Some(tail) => Some(seq![name] + tail),
                        }
                    }
                }
            },
        }
    }
}

/// Whether a document holds nothing but whitespace: no `projects` entry
/// at all.
pub open spec fn is_blank(s: Seq<char>) -> bool {
    forall|i: int|
        0 <= i < s.len() ==> (s[i] == ' ' || s[i] == '\t' || s[i] == '\n' || s[i] == '\r')
}

/// The store described by a document.  A blank document — one with no
/// `projects` entry at all — and the explicit empty line both give a
/// store with zero records; anything else must be the record list.
///
/// This is a deliberate decision: beyond the absent entry, the store
/// reads exactly the canonical layout it writes.  Other spellings of
/// the same data (extra whitespace around an entry, an inline array of
/// tables, comments) are treated as malformed rather than tolerated.
pub open spec fn parse_document(s: Seq<char>) -> Option<Seq<Seq<char>>> {
    if is_blank(s) || s == empty_document() {
        Some(Seq::empty())
    } else {
        parse_records(s)
    }
}

// ---------------------------------------------------------------------
// Parsing inverts rendering
// ---------------------------------------------------------------------

/// Reading an escaped value recovers it exactly, whatever follows the
/// closing quote.
proof fn lemma_parse_string_escape(name: Seq<char>, tail: Seq<char>)
    ensures
        parse_string(escape(name) + seq!['"'] + tail) == Some((name, tail)),
    decreases name.len(),
{
    let s = escape(name) + seq!['"'] + tail;
    if name.len() == 0 {
        assert(s =~= seq!['"'] + tail);
        assert(s[0] == '"');
        assert(s.drop_first() =~= tail);
    } else {
        let c = name[0];
        let rest = name.drop_first();
        if c == '"' || c == '\\' {
            assert(escape(name) =~= seq!['\\', c] + escape(rest));
            assert(s =~= seq!['\\', c] + (escape(rest) + seq!['"'] + tail));
            assert(s[0] == '\\' && s[1] == c);
            assert(s.skip(2) =~= escape(rest) + seq!['"'] + tail);
            lemma_parse_string_escape(rest, tail);
            assert(seq![c] + rest =~= name);
        } else {
            assert(escape(name) =~= seq![c] + escape(rest));
            assert(s =~= seq![c] + (escape(rest) + seq!['"'] + tail));
            assert(s[0] == c);
            assert(s.drop_first() =~= escape(rest) + seq!['"'] + tail);
            lemma_parse_string_escape(rest, tail);
            assert(seq![c] + rest =~= name);
        }
    }
}

/// Reading rendered records `ns[i..]` recovers them exactly.
proof fn lemma_parse_render_records(ns: Seq<Seq<char>>, i: int)
    requires
        0 <= i < ns.len(),
    ensures
        parse_records(render_records(ns, i)) == Some(ns.skip(i)),
    decreases ns.len() - i,
{
    let s = render_records(ns, i);
    let h = record_header();
    let block = h + escape(ns[i]) + seq!['"', '\n'];
    let tail_doc: Seq<char> = if i + 1 == ns.len() {
        Seq::empty()
    } else {
        seq!['\n'] + render_records(ns, i + 1)
    };
    assert(s =~= block + tail_doc);
    assert(s =~= h + (escape(ns[i]) + seq!['"'] + (seq!['\n'] + tail_doc)));
    assert(s.len() >= h.len());
    assert(s.take(h.len() as int) =~= h);
    let rest0 = s.skip(h.len() as int);
    assert(rest0 =~= escape(ns[i]) + seq!['"'] + (seq!['\n'] + tail_doc));
    lemma_parse_string_escape(ns[i], seq!['\n'] + tail_doc);
    let rest1 = seq!['\n'] + tail_doc;
    assert(parse_string(rest0) == Some((ns[i], rest1)));
    assert(rest1[0] == '\n');
    let rest2 = rest1.drop_first();
    assert(rest2 =~= tail_doc);
    if i + 1 == ns.len() {
        assert(rest2.len() == 0);
        assert(parse_records(s) == Some(seq![ns[i]]));
        assert(seq![ns[i]] =~= ns.skip(i));
    } else {
        assert(rest2 =~= seq!['\n'] + render_records(ns, i + 1));
        assert(rest2[0] == '\n');
        assert(rest2.drop_first() =~= render_records(ns, i + 1));
        lemma_parse_render_records(ns, i + 1);
        assert(parse_records(s) == Some(seq![ns[i]] + ns.skip(i + 1)));
        assert(seq![ns[i]] + ns.skip(i + 1) =~= ns.skip(i));
    }
}

/// The round trip: the document rendered from any list of names reads
/// back as exactly that list.  Together with the contracts of the
/// store's serialize and load operations this gives `load(save(s)) == s`
/// for every store `s` free of name collisions.
pub proof fn lemma_parse_render(ns: Seq<Seq<char>>)
    ensures
        parse_document(render(ns)) == Some(ns),
{
    reveal_strlit("projects = []\n");
    reveal_strlit("[[projects]]\nname = \"");
    if ns.len() == 0 {
        assert(render(ns) == empty_document());
        assert(ns =~= Seq::<Seq<char>>::empty());
    } else {
        let s = render_records(ns, 0);
        let block = record_header() + escape(ns[0]) + seq!['"', '\n'];
        assert(block.len() >= record_header().len() + 2);
        assert(s.len() >= block.len());
        assert(record_header().len() == 21);
        assert(empty_document().len() == 14);
        assert(s != empty_document());
        assert(s[0] == record_header()[0]);
        assert(record_header()[0] == '[');
        assert(!is_blank(s));
        lemma_parse_render_records(ns, 0);
        assert(ns.skip(0) =~= ns);
    }
}

/// Serializing a store twice yields byte-identical text both times: the
/// rendering is a function of the record names alone.
pub proof fn lemma_render_deterministic(ns1: Seq<Seq<char>>, ns2: Seq<Seq<char>>)
    ensures
        ns1 == ns2 ==> render(ns1) == render(ns2),
{
}

// ---------------------------------------------------------------------
// Characters and text
// ---------------------------------------------------------------------

/// Relies on String::push: appends exactly one character.
#[verifier::external_body]
fn push_char(s: &mut String, c: char)
    ensures
        final(s)@ == old(s)@.push(c),
{
    s.push(c);
}

/// The characters of a text, in order.
pub fn chars_of(s: &str) -> (r: Vec<char>)
    ensures
        r@ == s@,
{
    let n = s.unicode_len();
    let mut r: Vec<char> = Vec::new();
    let mut i: usize = 0;
    while i < n
        invariant
            i <= n,
            n == s@.len(),
            r@ == s@.take(i as int),
        decreases n - i,
    {
        r.push(s.get_char(i));
        proof {
            assert(r@ =~= s@.take(i + 1));
        }
        i = i + 1;
    }
    proof {
        assert(r@ =~= s@);
    }
    r
}

/// The text made of the given characters, in order.
pub fn string_of(v: &Vec<char>) -> (r: String)
    ensures
        r@ == v@,
{
    let mut r = String::new();
    let mut i: usize = 0;
    while i < v.len()
        invariant
            i <= v@.len(),
            r@ == v@.take(i as int),
        decreases v@.len() - i,
    {
        push_char(&mut r, v[i]);
        proof {
            assert(r@ =~= v@.take(i + 1));
        }
        i = i + 1;
    }
    proof {
        assert(r@ =~= v@);
    }
    r
}

/// Whether two character vectors hold the same characters.
pub fn chars_equal(a: &Vec<char>, b: &Vec<char>) -> (r: bool)
    ensures
        r == (a@ == b@),
{
    if a.len() != b.len() {
        return false;
    }
    let mut i: usize = 0;
    while i < a.len()
        invariant
            i <= a@.len(),
            a@.len() == b@.len(),
            forall|k: int| 0 <= k < i ==> a@[k] == b@[k],
        decreases a@.len() - i,
    {
        if a[i] != b[i] {
            return false;
        }
        i = i + 1;
    }
    proof {
        assert(a@ =~= b@);
    }
    true
}

/// Whether `w` stands in `v` starting at `pos`.
pub(crate) fn has_prefix_at(v: &Vec<char>, pos: usize, w: &Vec<char>) -> (r: bool)
    requires
        pos <= v@.len(),
    ensures
        r == (pos + w@.len() <= v@.len() && v@.skip(pos as int).take(w@.len() as int) == w@),
{
    let n = v.len();
    let m = w.len();
    if n - pos < m {
        return false;
    }
    let mut i: usize = 0;
    while i < m
        invariant
            i <= m,
            m == w@.len(),
            n == v@.len(),
            pos + m <= n,
            forall|k: int| 0 <= k < i ==> v@[pos + k] == w@[k],
        decreases m - i,
    {
        if v[pos + i] != w[i] {
            proof {
                assert(v@.skip(pos as int).take(w@.len() as int)[i as int] == v@[pos + i]);
            }
            return false;
        }
        i = i + 1;
    }
    proof {
        assert(v@.skip(pos as int).take(w@.len() as int) =~= w@);
    }
    true
}

/// The characters of the record opening.
pub(crate) fn record_header_chars() -> (r: Vec<char>)
    ensures
        r@ == record_header(),
{
    chars_of("[[projects]]\nname = \"")
}

/// The characters of the document of an empty store.
pub(crate) fn empty_document_chars() -> (r: Vec<char>)
    ensures
        r@ == empty_document(),
{
    chars_of("projects = []\n")
}

// ---------------------------------------------------------------------
// Rendering, executably
// ---------------------------------------------------------------------

/// Escaping one more character extends the escaped value.
proof fn lemma_escape_snoc(s: Seq<char>, c: char)
    ensures
        escape(s.push(c)) == escape(s) + escape_char(c),
    decreases s.len(),
{
    if s.len() == 0 {
        let t = s.push(c);
        assert(t.len() == 1);
        assert(t[0] == c);
        assert(t.drop_first() =~= Seq::<char>::empty());
        assert(escape(Seq::<char>::empty()) =~= Seq::<char>::empty());
        assert(escape(t) =~= escape_char(c) + escape(t.drop_first()));
        assert(escape(t) =~= escape_char(c));
        assert(escape(s) + escape_char(c) =~= escape_char(c));
    } else {
        assert(s.push(c)[0] == s[0]);
        assert(s.push(c).drop_first() =~= s.drop_first().push(c));
        lemma_escape_snoc(s.drop_first(), c);
        assert(escape(s.push(c)) =~= escape(s) + escape_char(c));
    }
}

/// The value as it stands between the quotes.
fn escape_chars(name: &Vec<char>) -> (r: Vec<char>)
    ensures
        r@ == escape(name@),
{
    let mut r: Vec<char> = Vec::new();
    let mut i: usize = 0;
    while i < name.len()
        invariant
            i <= name@.len(),
            r@ == escape(name@.take(i as int)),
        decreases name@.len() - i,
    {
        let c = name[i];
        if c == '"' || c == '\\' {
            r.push('\\');
            r.push(c);
        } else {
            r.push(c);
        }
        proof {
            assert(name@.take(i + 1) =~= name@.take(i as int).push(name@[i as int]));
            lemma_escape_snoc(name@.take(i as int), name@[i as int]);
            assert(r@ =~= escape(name@.take(i as int)) + escape_char(name@[i as int]));
        }
        i = i + 1;
    }
    proof {
        assert(name@.take(name@.len() as int) =~= name@);
    }
    r
}

/// The records `names[i..]`, rendered.
fn render_records_chars(names: &Vec<String>, i: usize) -> (r: Vec<char>)
    requires
        i < names@.len(),
    ensures
        r@ == render_records(names.deep_view(), i as int),
    decreases names@.len() - i,
{
    let ghost ns = names.deep_view();
    let n = names.len();
    proof {
        assert(ns.len() == names@.len());
        assert(ns[i as int] == names@[i as int]@);
    }
    let mut out = record_header_chars();
    let name_chars = chars_of(names[i].as_str());
    let mut esc = escape_chars(&name_chars);
    out.append(&mut esc);
    out.push('"');
    out.push('\n');
    proof {
        assert(out@ =~= record_header() + escape(ns[i as int]) + seq!['"', '\n']);
    }
    if i + 1 < n {
        out.push('\n');
        let mut tail = render_records_chars(names, i + 1);
        out.append(&mut tail);
        proof {
            assert(out@ =~= (record_header() + escape(ns[i as int]) + seq!['"', '\n'])
                + seq!['\n'] + render_records(ns, i + 1));
        }
    }
    out
}

/// The canonical document of the store whose record names are `names`.
pub fn render_document(names: &Vec<String>) -> (r: String)
    ensures
        r@ == render(names.deep_view()),
{
    if names.len() == 0 {
        let out = empty_document_chars();
        string_of(&out)
    } else {
        let out = render_records_chars(names, 0);
        string_of(&out)
    }
}

// ---------------------------------------------------------------------
// Parsing, executably
// ---------------------------------------------------------------------

/// Reads the quoted value starting at `pos`: the value and the position
/// just past its closing quote.
pub(crate) fn parse_string_at(v: &Vec<char>, pos: usize) -> (r: Option<(Vec<char>, usize)>)
    requires
        pos <= v@.len(),
    ensures
        match r {
            Some(p) => pos <= p.1 <= v@.len() && parse_string(v@.skip(pos as int))
                == Some((p.0@, v@.skip(p.1 as int))),
            None => parse_string(v@.skip(pos as int)) is None,
        },
    decreases v@.len() - pos,
{
    let ghost s = v@.skip(pos as int);
    if pos == v.len() {
        proof {
            assert(s.len() == 0);
        }
        return None;
    }
    proof {
        assert(s[0] == v@[pos as int]);
    }
    let c = v[pos];
    if c == '"' {
        proof {
            assert(s.drop_first() =~= v@.skip(pos + 1));
        }
        let name: Vec<char> = Vec::new();
        proof {
            assert(name@ =~= Seq::<char>::empty());
        }
        Some((name, pos + 1))
    } else if c == '\\' {
        if pos + 1 < v.len() {
            proof {
                assert(s[1] == v@[pos + 1]);
            }
            let d = v[pos + 1];
            if d == '"' || d == '\\' {
                proof {
                    assert(s.skip(2) =~= v@.skip(pos + 2));
                }
                match parse_string_at(v, pos + 2) {
                    Some((name, end)) => {
                        let mut name = name;
                        name.insert(0, d);
                        proof {
                            assert(name@ =~= seq![s[1]] + name@.drop_first());
                        }
                        Some((name, end))
                    },
                    None => None,
                }
            } else {
                None
            }
        } else {
            proof {
                assert(s.len() == 1);
            }
            None
        }
    } else {
        proof {
            assert(s.drop_first() =~= v@.skip(pos + 1));
        }
        match parse_string_at(v, pos + 1) {
            Some((name, end)) => {
                let mut name = name;
                name.insert(0, c);
                proof {
                    assert(name@ =~= seq![s[0]] + name@.drop_first());
                }
                Some((name, end))
            },
            None => None,
        }
    }
}

/// Reads the records starting at `pos`; `header` holds the record
/// opening.
fn parse_records_at(v: &Vec<char>, pos: usize, header: &Vec<char>) -> (r: Option<Vec<String>>)
    requires
        pos <= v@.len(),
        header@ == record_header(),
    ensures
        match r {
            Some(names) => parse_records(v@.skip(pos as int)) == Some(names.deep_view()),
            None => parse_records(v@.skip(pos as int)) is None,
        },
    decreases v@.len() - pos,
{
    let ghost s = v@.skip(pos as int);
    let ghost h = record_header();
    if !has_prefix_at(v, pos, header) {
        proof {
            assert(s.len() < h.len() || s.take(h.len() as int) != h);
        }
        return None;
    }
    proof {
        assert(s.len() >= h.len() && s.take(h.len() as int) == h);
    }
    let n = v.len();
    let pos2 = pos + header.len();
    proof {
        assert(s.skip(h.len() as int) =~= v@.skip(pos2 as int));
    }
    match parse_string_at(v, pos2) {
        None => None,
        Some((name, end)) => {
            let ghost rest1 = v@.skip(end as int);
            if end == v.len() {
                proof {
                    assert(rest1.len() == 0);
                }
                return None;
            }
            proof {
                assert(rest1[0] == v@[end as int]);
            }
            if v[end] != '\n' {
                return None;
            }
            let pos3 = end + 1;
            proof {
                assert(rest1.drop_first() =~= v@.skip(pos3 as int));
            }
            if pos3 == v.len() {
                let mut names: Vec<String> = Vec::new();
                names.push(string_of(&name));
                proof {
                    assert(names.deep_view() =~= seq![name@]);
                }
                Some(names)
            } else {
                proof {
                    assert(v@.skip(pos3 as int)[0] == v@[pos3 as int]);
                }
                if v[pos3] != '\n' {
                    return None;
                }
                proof {
                    assert(v@.skip(pos3 as int).drop_first() =~= v@.skip(pos3 + 1));
                }
                match parse_records_at(v, pos3 + 1, header) {
                    None => None,
                    Some(tail) => {
                        let mut names = tail;
                        names.insert(0, string_of(&name));
                        proof {
                            assert(names.deep_view() =~= seq![name@]
                                + names@.drop_first().map(|k: int, t: String| t.deep_view()));
                            assert(names@.drop_first() =~= names@.skip(1));
                        }
                        Some(names)
                    },
                }
            }
        },
    }
}

/// Whether the document holds nothing but whitespace.
fn is_blank_text(v: &Vec<char>) -> (r: bool)
    ensures
        r == is_blank(v@),
{
    let n = v.len();
    let mut i: usize = 0;
    while i < n
        invariant
            i <= n,
            n == v@.len(),
            forall|k: int|
                0 <= k < i ==> (v@[k] == ' ' || v@[k] == '\t' || v@[k] == '\n' || v@[k]
                    == '\r'),
        decreases n - i,
    {
        let c = v[i];
        if !(c == ' ' || c == '\t' || c == '\n' || c == '\r') {
            proof {
                assert(!is_blank(v@));
            }
            return false;
        }
        i = i + 1;
    }
    true
}

/// Reads a whole document: the record names it lists, or `None` for any
/// malformation.
pub fn parse_document_text(document: &str) -> (r: Option<Vec<String>>)
    ensures
        match r {
            Some(names) => parse_document(document@) == Some(names.deep_view()),
            None => parse_document(document@) is None,
        },
{
    let chars = chars_of(document);
    let empty_doc = empty_document_chars();
    if is_blank_text(&chars) || chars_equal(&chars, &empty_doc) {
        let names: Vec<String> = Vec::new();
        proof {
            assert(names.deep_view() =~= Seq::<Seq<char>>::empty());
        }
        Some(names)
    } else {
        let header = record_header_chars();
        proof {
            assert(chars@.skip(0) =~= chars@);
        }
        parse_records_at(&chars, 0, &header)
    }
}

} // verus!
