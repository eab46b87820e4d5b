//! The editable frontmatter format.
//!
//! A document is rendered for editing as
//!
//! ```text
//! ---
//! title: <title>
//! ---
//! <body>
//! ```
//!
//! The first `---` line closes a (possibly empty) preamble, the second
//! closes the metadata block, and everything after the second delimiter
//! line is the body, kept verbatim.  The metadata block decodes as a
//! key/value mapping: a sequence of `key: value` lines, or the empty
//! mapping written `{}`, and the mapping must contain a nonempty
//! `title`.  Rendering and parsing are inverse to each other; the
//! round-trip law is proved at the bottom of this module.
use vstd::prelude::*;

verus! {

/// Why an edited text could not be split back into metadata and body.
#[derive(Clone, Copy, Debug, PartialEq, Eq, Structural)]
pub enum ParseError {
    /// The text has no two delimiter lines, or a nonempty metadata line
    /// is neither a `key: value` pair nor the empty mapping `{}`.
    MalformedMetadata,
    /// The metadata block decoded, but holds no nonempty `title`.
    MissingTitle,
}

/// The decoded metadata of a document: today only its title.
#[derive(Debug, PartialEq, Eq)]
pub struct Metadata {
    pub title: Vec<u8>,
}

/// The delimiter line `---`.
pub open spec fn delim_line() -> Seq<u8> {
    seq![45u8, 45u8, 45u8]
}

/// The metadata key `title`.
pub open spec fn title_key() -> Seq<u8> {
    seq![116u8, 105u8, 116u8, 108u8, 101u8]
}

/// The metadata line prefix `title: ` emitted by the renderer.
pub open spec fn title_prefix() -> Seq<u8> {
    seq![116u8, 105u8, 116u8, 108u8, 101u8, 58u8, 32u8]
}

/// The given text, or empty when there is none.
pub open spec fn opt_text(t: Option<Seq<u8>>) -> Seq<u8> {
    match t {
        Some(s) => s,
        None => Seq::empty(),
    }
}

/// What rendering a document produces: delimiter line, `title: ` line,
/// delimiter line, then the body verbatim.  A missing title or body
/// renders as an empty slot.
pub open spec fn render_spec(title: Option<Seq<u8>>, body: Option<Seq<u8>>) -> Seq<u8> {
    delim_line() + seq![10u8] + title_prefix() + opt_text(title) + seq![10u8] + delim_line()
        + seq![10u8] + opt_text(body)
}

/// The lines of a byte text.  `\n` separates lines: the empty text is one
/// empty line, and a trailing `\n` yields a final empty line.
pub open spec fn line_split(s: Seq<u8>) -> Seq<Seq<u8>>
    decreases s.len(),
{
    if s.len() == 0 {
        seq![Seq::<u8>::empty()]
    } else if s.last() == 10u8 {
        line_split(s.drop_last()).push(Seq::<u8>::empty())
    } else {
        let p = line_split(s.drop_last());
        p.update(p.len() - 1, p.last().push(s.last()))
    }
}

/// Joins lines with `\n`; the inverse of `line_split`.
pub open spec fn line_join(ls: Seq<Seq<u8>>) -> Seq<u8>
    decreases ls.len(),
{
    if ls.len() == 0 {
        Seq::empty()
    } else if ls.len() == 1 {
        ls[0]
    } else {
        line_join(ls.drop_last()) + seq![10u8] + ls.last()
    }
}

pub proof fn lemma_line_split_nonempty(s: Seq<u8>)
    ensures
        line_split(s).len() >= 1,
    decreases s.len(),
{
    if s.len() > 0 {
        lemma_line_split_nonempty(s.drop_last());
    }
}

/// Splitting a text into lines and joining them again gives the text back.
pub proof fn lemma_join_split(s: Seq<u8>)
    ensures
        line_join(line_split(s)) == s,
    decreases s.len(),
{
    if s.len() == 0 {
        assert(line_join(line_split(s)) =~= s);
    } else if s.last() == 10u8 {
        let p = line_split(s.drop_last());
        lemma_line_split_nonempty(s.drop_last());
        lemma_join_split(s.drop_last());
        assert(p.push(Seq::<u8>::empty()).drop_last() =~= p);
        assert(line_join(line_split(s)) =~= s);
    } else {
        let p = line_split(s.drop_last());
        let q = p.update(p.len() - 1, p.last().push(s.last()));
        lemma_line_split_nonempty(s.drop_last());
        lemma_join_split(s.drop_last());
        if p.len() == 1 {
            assert(line_join(q) == q[0]);
            assert(line_join(line_split(s)) =~= s);
        } else {
            assert(q.drop_last() =~= p.drop_last());
            assert(q.last() == p.last().push(s.last()));
            assert(line_join(q) == line_join(q.drop_last()) + seq![10u8] + q.last());
            assert(line_join(p) == line_join(p.drop_last()) + seq![10u8] + p.last());
            assert(line_join(p.drop_last()) + seq![10u8] + p.last() == s.drop_last());
            assert(line_join(q) == line_join(p.drop_last()) + seq![10u8] + p.last().push(
                s.last(),
            ));
            assert(line_join(p.drop_last()) + seq![10u8] + p.last().push(s.last()) =~= (line_join(
                p.drop_last(),
            ) + seq![10u8] + p.last()).push(s.last()));
            assert(s.drop_last().push(s.last()) =~= s);
            assert(line_join(q) == s);
            assert(line_split(s) == q);
        }
    }
}

/// A text without `\n` is a single line.
pub proof fn lemma_split_no_nl(s: Seq<u8>)
    requires
        forall|i: int| 0 <= i < s.len() ==> s[i] != 10u8,
    ensures
        line_split(s) == seq![s],
    decreases s.len(),
{
    if s.len() == 0 {
        assert(line_split(s) =~~= seq![s]);
    } else {
        lemma_split_no_nl(s.drop_last());
        let p = line_split(s.drop_last());
        assert(p == seq![s.drop_last()]);
        assert(p.update(p.len() - 1, p.last().push(s.last())) =~~= seq![s]);
    }
}

/// Peeling one `\n`-terminated line without `\n` off the front of a text
/// peels one line off its line sequence.
pub proof fn lemma_split_line_prefix(l: Seq<u8>, rest: Seq<u8>)
    requires
        forall|i: int| 0 <= i < l.len() ==> l[i] != 10u8,
    ensures
        line_split(l + seq![10u8] + rest) == seq![l] + line_split(rest),
    decreases rest.len(),
{
    let s = l + seq![10u8] + rest;
    if rest.len() == 0 {
        assert(s.drop_last() =~= l);
        assert(s.last() == 10u8);
        lemma_split_no_nl(l);
        assert(line_split(s) =~~= seq![l] + line_split(rest));
    } else {
        let s0 = l + seq![10u8] + rest.drop_last();
        assert(s.drop_last() =~= s0);
        assert(s.last() == rest.last());
        lemma_split_line_prefix(l, rest.drop_last());
        lemma_line_split_nonempty(rest.drop_last());
        let q = line_split(rest.drop_last());
        if rest.last() == 10u8 {
            assert(line_split(s) == (seq![l] + q).push(Seq::<u8>::empty()));
            assert((seq![l] + q).push(Seq::<u8>::empty()) =~~= seq![l] + q.push(
                Seq::<u8>::empty(),
            ));
        } else {
            let p = seq![l] + q;
            assert(line_split(s) == p.update(p.len() - 1, p.last().push(rest.last())));
            assert(p.last() == q.last());
            assert(p.update(p.len() - 1, p.last().push(rest.last())) =~~= seq![l] + q.update(
                q.len() - 1,
                q.last().push(rest.last()),
            ));
        }
    }
}

/// Index of the first delimiter line, or `ls.len()` when there is none.
pub open spec fn first_delim(ls: Seq<Seq<u8>>) -> int
    decreases ls.len(),
{
    if ls.len() == 0 {
        0
    } else if ls.first() == delim_line() {
        0
    } else {
        1 + first_delim(ls.drop_first())
    }
}

/// `first_delim` is pinned down by its two properties: nothing before
/// index `i` is a delimiter line, and `i` (when in range) is one.
pub proof fn lemma_first_delim_is(ls: Seq<Seq<u8>>, i: int)
    requires
        0 <= i <= ls.len(),
        forall|k: int| 0 <= k < i ==> ls[k] != delim_line(),
        i < ls.len() ==> ls[i] == delim_line(),
    ensures
        first_delim(ls) == i,
    decreases ls.len(),
{
    if ls.len() == 0 {
    } else if ls.first() == delim_line() {
        assert(i == 0);
    } else {
        assert(ls[0] != delim_line());
        assert(i >= 1);
        assert(forall|k: int| 0 <= k < i - 1 ==> ls.drop_first()[k] == ls[k + 1]);
        lemma_first_delim_is(ls.drop_first(), i - 1);
    }
}

/// Position of the first colon in a line, or the line's length.
pub open spec fn first_colon(l: Seq<u8>) -> int
    decreases l.len(),
{
    if l.len() == 0 {
        0
    } else if l.first() == 58u8 {
        0
    } else {
        1 + first_colon(l.drop_first())
    }
}

pub proof fn lemma_first_colon_is(l: Seq<u8>, i: int)
    requires
        0 <= i <= l.len(),
        forall|k: int| 0 <= k < i ==> l[k] != 58u8,
        i < l.len() ==> l[i] == 58u8,
    ensures
        first_colon(l) == i,
    decreases l.len(),
{
    if l.len() == 0 {
    } else if l.first() == 58u8 {
        assert(i == 0);
    } else {
        assert(l[0] != 58u8);
        assert(i >= 1);
        assert(forall|k: int| 0 <= k < i - 1 ==> l.drop_first()[k] == l[k + 1]);
        lemma_first_colon_is(l.drop_first(), i - 1);
    }
}

/// Whether a metadata line carries a key and a value: it has a colon.
pub open spec fn line_has_colon(l: Seq<u8>) -> bool {
    first_colon(l) < l.len()
}

/// The flow form of an empty metadata mapping: the line `{}`.  It
/// decodes as a mapping with no keys at all — so in particular with no
/// `title`.
pub open spec fn empty_map_line() -> Seq<u8> {
    seq![123u8, 125u8]
}

/// The key of a metadata line: the bytes before its first colon.
pub open spec fn line_key(l: Seq<u8>) -> Seq<u8> {
    l.take(first_colon(l))
}

/// The value of a metadata line: the bytes after its first colon, less
/// one leading space if present.
pub open spec fn line_value(l: Seq<u8>) -> Seq<u8> {
    let raw = l.skip(first_colon(l) + 1);
    if raw.len() > 0 && raw.first() == 32u8 {
        raw.drop_first()
    } else {
        raw
    }
}

/// A metadata block decodes as a mapping when every nonempty line is a
/// `key: value` pair or the empty mapping `{}`.
pub open spec fn meta_well_formed(ls: Seq<Seq<u8>>) -> bool {
    forall|k: int|
        0 <= k < ls.len() && ls[k].len() > 0 ==> line_has_colon(#[trigger] ls[k]) || ls[k]
            == empty_map_line()
}

/// Whether a metadata line names the title.
pub open spec fn is_title_line(l: Seq<u8>) -> bool {
    l.len() > 0 && line_has_colon(l) && line_key(l) == title_key()
}

/// The value of the first metadata line whose key is `title`, if any.
pub open spec fn meta_title(ls: Seq<Seq<u8>>) -> Option<Seq<u8>>
    decreases ls.len(),
{
    if ls.len() == 0 {
        None
    } else if meta_title(ls.drop_last()) is Some {
        meta_title(ls.drop_last())
    } else if is_title_line(ls.last()) {
        Some(line_value(ls.last()))
    } else {
        None
    }
}

/// Decodes a metadata block: every nonempty line must be a `key: value`
/// pair or the empty mapping `{}`, and the mapping must carry a
/// nonempty `title`.  In particular the block `{}` decodes to a mapping
/// without a `title`, so it is `MissingTitle`, not a malformed block.
pub open spec fn decode_meta(ls: Seq<Seq<u8>>) -> Result<Seq<u8>, ParseError> {
    if !meta_well_formed(ls) {
        Err(ParseError::MalformedMetadata)
    } else {
        match meta_title(ls) {
            Some(t) => if t.len() > 0 {
                Ok(t)
            } else {
                Err(ParseError::MissingTitle)
            },
            None => Err(ParseError::MissingTitle),
        }
    }
}

/// What parsing an edited text yields: the title out of the metadata
/// block between the first two delimiter lines, and the body after the
/// second one, joined back verbatim.
pub open spec fn parse_spec(s: Seq<u8>) -> Result<(Seq<u8>, Seq<u8>), ParseError> {
    let ls = line_split(s);
    let i = first_delim(ls);
    if i == ls.len() {
        Err(ParseError::MalformedMetadata)
    } else {
        let rest = ls.skip(i + 1);
        let j = first_delim(rest);
        if j == rest.len() {
            Err(ParseError::MalformedMetadata)
        } else {
            let meta = rest.take(j);
            let body = line_join(rest.skip(j + 1));
            match decode_meta(meta) {
                Ok(title) => Ok((title, body)),
                Err(e) => Err(e),
            }
        }
    }
}

/// The view of each line of a line vector.
pub open spec fn line_views(ls: Seq<Vec<u8>>) -> Seq<Seq<u8>> {
    Seq::new(ls.len(), |i: int| ls[i]@)
}

/// The view of an optional byte text.
pub open spec fn opt_view(o: Option<Vec<u8>>) -> Option<Seq<u8>> {
    match o {
        Some(v) => Some(v@),
        None => None,
    }
}

/// Appends a copy of `src` to `out`.
pub(crate) fn push_all(out: &mut Vec<u8>, src: &Vec<u8>)
    ensures
        final(out)@ == old(out)@ + src@,
{
    proof {
        assert(old(out)@ + src@.take(0) =~= old(out)@);
    }
    let mut i: usize = 0;
    while i < src.len()
        invariant
            i <= src@.len(),
            out@ == old(out)@ + src@.take(i as int),
        decreases src@.len() - i,
    {
        out.push(src[i]);
        proof {
            assert(old(out)@ + src@.take(i as int) + seq![src@[i as int]] =~= old(out)@
                + src@.take(i as int + 1));
        }
        i = i + 1;
    }
    proof {
        assert(src@.take(src@.len() as int) =~= src@);
    }
}

/// Renders a document into its editable text: delimiter line, `title: `
/// line, delimiter line, body.  A missing title or body leaves its slot
/// empty; the body is copied verbatim, with no escaping.
pub fn render(title: &Option<Vec<u8>>, body: &Option<Vec<u8>>) -> (r: Vec<u8>)
    ensures
        r@ == render_spec(opt_view(*title), opt_view(*body)),
{
    let mut out: Vec<u8> = Vec::new();
    out.push(45u8);
    out.push(45u8);
    out.push(45u8);
    out.push(10u8);
    out.push(116u8);
    out.push(105u8);
    out.push(116u8);
    out.push(108u8);
    out.push(101u8);
    out.push(58u8);
    out.push(32u8);
    match title {
        Some(t) => push_all(&mut out, t),
        None => {},
    }
    out.push(10u8);
    out.push(45u8);
    out.push(45u8);
    out.push(45u8);
    out.push(10u8);
    match body {
        Some(b) => push_all(&mut out, b),
        None => {},
    }
    proof {
        assert(out@ =~= render_spec(opt_view(*title), opt_view(*body)));
    }
    out
}

/// Splits a text into its lines.
fn split_lines(text: &Vec<u8>) -> (ls: Vec<Vec<u8>>)
    ensures
        line_views(ls@) == line_split(text@),
{
    let mut acc: Vec<Vec<u8>> = Vec::new();
    let mut cur: Vec<u8> = Vec::new();
    let mut i: usize = 0;
    proof {
        assert(text@.take(0) =~= Seq::<u8>::empty());
        assert(line_views(acc@).push(cur@) =~~= seq![Seq::<u8>::empty()]);
    }
    while i < text.len()
        invariant
            i <= text@.len(),
            line_split(text@.take(i as int)) == line_views(acc@).push(cur@),
        decreases text@.len() - i,
    {
        let c = text[i];
        let ghost prev_acc = acc@;
        let ghost prev_cur = cur@;
        proof {
            assert(text@.take(i as int + 1).drop_last() =~= text@.take(i as int));
            assert(text@.take(i as int + 1).last() == text@[i as int]);
        }
        if c == 10u8 {
            acc.push(cur);
            cur = Vec::new();
            proof {
                assert(line_views(acc@) =~~= line_views(prev_acc).push(prev_cur));
                assert(line_views(acc@).push(cur@) =~~= line_views(prev_acc).push(prev_cur).push(
                    Seq::<u8>::empty(),
                ));
            }
        } else {
            cur.push(c);
            proof {
                let p = line_views(prev_acc).push(prev_cur);
                assert(line_views(acc@).push(cur@) =~~= p.update(p.len() - 1, p.last().push(c)));
            }
        }
        i = i + 1;
    }
    acc.push(cur);
    proof {
        assert(text@.take(text@.len() as int) =~= text@);
        assert(line_views(acc@) =~~= line_split(text@));
    }
    acc
}

/// Whether a line is the delimiter line `---`.
fn is_delim_vec(l: &Vec<u8>) -> (r: bool)
    ensures
        r == (l@ == delim_line()),
{
    if l.len() == 3 {
        let r = l[0] == 45u8 && l[1] == 45u8 && l[2] == 45u8;
        proof {
            if r {
                assert(l@ =~= delim_line());
            }
        }
        r
    } else {
        false
    }
}

/// Finds the first delimiter line at or after `from`, or the line count.
fn find_first_delim(ls: &Vec<Vec<u8>>, from: usize) -> (r: usize)
    requires
        from <= ls@.len(),
    ensures
        from <= r <= ls@.len(),
        r - from == first_delim(line_views(ls@).skip(from as int)),
{
    let ghost sub = line_views(ls@).skip(from as int);
    let mut i: usize = from;
    while i < ls.len()
        invariant
            from <= i <= ls@.len(),
            sub == line_views(ls@).skip(from as int),
            forall|k: int| from <= k < i ==> line_views(ls@)[k] != delim_line(),
        decreases ls@.len() - i,
    {
        let hit = is_delim_vec(&ls[i]);
        if hit {
            proof {
                assert(forall|k: int| 0 <= k < i - from ==> sub[k] == line_views(ls@)[k + from]);
                assert(sub[i - from] == line_views(ls@)[i as int]);
                lemma_first_delim_is(sub, i - from);
            }
            return i;
        }
        i = i + 1;
    }
    proof {
        assert(forall|k: int| 0 <= k < sub.len() ==> sub[k] == line_views(ls@)[k + from]);
        lemma_first_delim_is(sub, sub.len() as int);
    }
    i
}

/// Finds the first colon of a line, or the line's length.
fn find_colon(l: &Vec<u8>) -> (r: usize)
    ensures
        r <= l@.len(),
        r as int == first_colon(l@),
{
    let mut i: usize = 0;
    while i < l.len()
        invariant
            i <= l@.len(),
            forall|k: int| 0 <= k < i ==> l@[k] != 58u8,
        decreases l@.len() - i,
    {
        if l[i] == 58u8 {
            proof {
                lemma_first_colon_is(l@, i as int);
            }
            return i;
        }
        i = i + 1;
    }
    proof {
        lemma_first_colon_is(l@, l@.len() as int);
    }
    i
}

/// Copies the value out of a `key: value` line.
fn line_value_exec(l: &Vec<u8>) -> (r: Vec<u8>)
    requires
        line_has_colon(l@),
    ensures
        r@ == line_value(l@),
{
    let c = find_colon(l);
    let n = l.len();
    assert(c < n);
    let mut start = c + 1;
    if start < l.len() {
        if l[start] == 32u8 {
            start = start + 1;
        }
    }
    let mut out: Vec<u8> = Vec::new();
    let mut i = start;
    proof {
        assert(out@ =~= l@.subrange(start as int, start as int));
    }
    while i < l.len()
        invariant
            start <= i <= l@.len(),
            out@ == l@.subrange(start as int, i as int),
        decreases l@.len() - i,
    {
        out.push(l[i]);
        proof {
            assert(l@.subrange(start as int, i as int).push(l@[i as int]) =~= l@.subrange(
                start as int,
                i as int + 1,
            ));
        }
        i = i + 1;
    }
    proof {
        let raw = l@.skip(first_colon(l@) + 1);
        if raw.len() > 0 && raw.first() == 32u8 {
            assert(l@.subrange(start as int, l@.len() as int) =~= raw.drop_first());
        } else {
            assert(l@.subrange(start as int, l@.len() as int) =~= raw);
        }
    }
    out
}

/// A block stays well formed exactly when an acceptable line — empty,
/// with a colon, or the empty mapping `{}` — is appended.
proof fn lemma_well_formed_extend(processed: Seq<Seq<u8>>, extended: Seq<Seq<u8>>)
    requires
        extended.len() == processed.len() + 1,
        extended.drop_last() == processed,
        extended.last().len() > 0 ==> line_has_colon(extended.last()) || extended.last()
            == empty_map_line(),
    ensures
        meta_well_formed(extended) == meta_well_formed(processed),
{
    assert(forall|j: int| 0 <= j < processed.len() ==> #[trigger] processed[j] == extended[j]);
    if meta_well_formed(processed) {
        assert forall|j: int| 0 <= j < extended.len() && extended[j].len() > 0 implies
            line_has_colon(#[trigger] extended[j]) || extended[j] == empty_map_line() by {
            if j < processed.len() {
                assert(extended[j] == processed[j]);
            }
        }
    } else {
        let j = choose|j: int| 0 <= j < processed.len() && processed[j].len() > 0
            && !line_has_colon(processed[j]) && processed[j] != empty_map_line();
        assert(extended[j].len() > 0 && !line_has_colon(extended[j]) && extended[j]
            != empty_map_line());
    }
}

/// Appending a nonempty line that has no colon and is not the empty
/// mapping `{}` makes a block malformed.
proof fn lemma_well_formed_bad(processed: Seq<Seq<u8>>, extended: Seq<Seq<u8>>)
    requires
        extended.len() == processed.len() + 1,
        extended.drop_last() == processed,
        extended.last().len() > 0,
        !line_has_colon(extended.last()),
        extended.last() != empty_map_line(),
    ensures
        !meta_well_formed(extended),
{
    assert(extended[extended.len() - 1].len() > 0 && !line_has_colon(
        extended[extended.len() - 1],
    ) && extended[extended.len() - 1] != empty_map_line());
}

/// Decodes the metadata lines `ls[lo..hi]` into a title.
fn decode_meta_range(ls: &Vec<Vec<u8>>, lo: usize, hi: usize) -> (r: Result<Vec<u8>, ParseError>)
    requires
        lo <= hi <= ls@.len(),
    ensures
        ({
            let meta = line_views(ls@).subrange(lo as int, hi as int);
            match r {
                Ok(t) => decode_meta(meta) == Ok::<Seq<u8>, ParseError>(t@),
                Err(e) => decode_meta(meta) == Err::<Seq<u8>, ParseError>(e),
            }
        }),
{
    let ghost meta = line_views(ls@).subrange(lo as int, hi as int);
    let mut malformed = false;
    let mut title: Option<Vec<u8>> = None;
    let mut k = lo;
    proof {
        assert(meta.take(0) =~~= Seq::<Seq<u8>>::empty());
    }
    while k < hi
        invariant
            lo <= k <= hi <= ls@.len(),
            meta == line_views(ls@).subrange(lo as int, hi as int),
            malformed == !meta_well_formed(meta.take(k - lo)),
            match title {
                Some(t) => meta_title(meta.take(k - lo)) == Some(t@),
                None => meta_title(meta.take(k - lo)) is None,
            },
        decreases hi - k,
    {
        let ghost processed = meta.take(k - lo);
        let ghost extended = meta.take(k + 1 - lo);
        proof {
            assert(extended.drop_last() =~~= processed);
            assert(extended.last() == line_views(ls@)[k as int]);
        }
        let line = &ls[k];
        if line.len() > 0 {
            let c = find_colon(line);
            if c == line.len() {
                let empty_map = line.len() == 2 && line[0] == 123u8 && line[1] == 125u8;
                proof {
                    assert(!line_has_colon(extended.last()));
                    if empty_map {
                        assert(line@ =~= empty_map_line());
                        lemma_well_formed_extend(processed, extended);
                    } else {
                        assert(line@ != empty_map_line());
                        lemma_well_formed_bad(processed, extended);
                    }
                }
                if !empty_map {
                    malformed = true;
                }
            } else {
                proof {
                    assert(line_has_colon(line@));
                    lemma_well_formed_extend(processed, extended);
                }
                let mut is_title = false;
                if c == 5 {
                    is_title = line[0] == 116u8 && line[1] == 105u8 && line[2] == 116u8 && line[3]
                        == 108u8 && line[4] == 101u8;
                }
                proof {
                    assert(line_key(line@).len() == first_colon(line@));
                    if is_title {
                        assert(line_key(line@) =~= title_key());
                    } else {
                        assert(line_key(line@) != title_key());
                    }
                }
                if is_title && title.is_none() {
                    let v = line_value_exec(line);
                    title = Some(v);
                }
            }
        } else {
            proof {
                lemma_well_formed_extend(processed, extended);
            }
        }
        k = k + 1;
    }
    proof {
        assert(meta.take(hi - lo) =~~= meta);
    }
    if malformed {
        return Err(ParseError::MalformedMetadata);
    }
    match title {
        Some(t) => {
            if t.len() > 0 {
                Ok(t)
            } else {
                Err(ParseError::MissingTitle)
            }
        },
        None => Err(ParseError::MissingTitle),
    }
}

/// Joins the lines `ls[from..]` back with `\n`.
fn join_lines(ls: &Vec<Vec<u8>>, from: usize) -> (r: Vec<u8>)
    requires
        from <= ls@.len(),
    ensures
        r@ == line_join(line_views(ls@).skip(from as int)),
{
    let ghost lv = line_views(ls@);
    let mut out: Vec<u8> = Vec::new();
    if from == ls.len() {
        proof {
            assert(lv.skip(from as int) =~~= Seq::<Seq<u8>>::empty());
        }
        return out;
    }
    push_all(&mut out, &ls[from]);
    proof {
        assert(out@ =~= lv[from as int]);
        assert(lv.subrange(from as int, from as int + 1) =~~= seq![lv[from as int]]);
    }
    let mut k = from + 1;
    while k < ls.len()
        invariant
            from < k <= ls@.len(),
            lv == line_views(ls@),
            out@ == line_join(lv.subrange(from as int, k as int)),
        decreases ls@.len() - k,
    {
        out.push(10u8);
        push_all(&mut out, &ls[k]);
        proof {
            let ext = lv.subrange(from as int, k as int + 1);
            assert(ext.drop_last() =~~= lv.subrange(from as int, k as int));
            assert(ext.last() == lv[k as int]);
            assert(out@ =~= line_join(ext));
        }
        k = k + 1;
    }
    proof {
        assert(lv.subrange(from as int, ls@.len() as int) =~~= lv.skip(from as int));
    }
    out
}

/// Parses an edited text back into its metadata and body.
///
/// The first delimiter line ends the (possibly empty) preamble, the
/// second ends the metadata block; the lines after it, joined with their
/// newlines, are the body, returned unmodified.  Fewer than two delimiter
/// lines, or a nonempty metadata line that is neither a `key: value`
/// pair nor the empty mapping `{}`, is `MalformedMetadata`; a decoded
/// block without a nonempty `title` — among them the empty mapping — is
/// `MissingTitle`.
pub fn parse(text: &Vec<u8>) -> (r: Result<(Metadata, Vec<u8>), ParseError>)
    ensures
        match r {
            Ok(p) => parse_spec(text@) == Ok::<(Seq<u8>, Seq<u8>), ParseError>((p.0.title@, p.1@)),
            Err(e) => parse_spec(text@) == Err::<(Seq<u8>, Seq<u8>), ParseError>(e),
        },
{
    let ls = split_lines(text);
    let ghost lv = line_views(ls@);
    proof {
        assert(lv.skip(0) =~~= lv);
    }
    let i = find_first_delim(&ls, 0);
    if i == ls.len() {
        return Err(ParseError::MalformedMetadata);
    }
    let ghost rest = lv.skip(i as int + 1);
    let j = find_first_delim(&ls, i + 1);
    proof {
        assert(j - (i + 1) == first_delim(rest));
    }
    if j == ls.len() {
        proof {
            assert(first_delim(rest) == rest.len());
        }
        return Err(ParseError::MalformedMetadata);
    }
    proof {
        assert(rest.take(j - (i + 1)) =~~= lv.subrange(i as int + 1, j as int));
    }
    let title = match decode_meta_range(&ls, i + 1, j) {
        Ok(t) => t,
        Err(e) => {
            return Err(e);
        },
    };
    let body = join_lines(&ls, j + 1);
    proof {
        assert(rest.skip(j - (i + 1) + 1) =~~= lv.skip(j as int + 1));
    }
    Ok((Metadata { title }, body))
}

/// Round-trip law: parsing a rendered document gives the document back,
/// `parse(render(title, body)) == (title, body)`.
///
/// The hypothesis on the title is that it is nonempty and embeds no
/// newline.  Being free of the delimiter sequence would not be enough:
/// a title with an embedded newline contains no delimiter, yet it
/// splits the rendered metadata line in two, and the second half fails
/// to decode.  The body is arbitrary: the parser cuts at the first two
/// delimiter lines, so a delimiter line inside the body stays in the
/// body.
pub proof fn lemma_round_trip(title: Seq<u8>, body: Seq<u8>)
    requires
        title.len() > 0,
        forall|i: int| 0 <= i < title.len() ==> title[i] != 10u8,
    ensures
        parse_spec(render_spec(Some(title), Some(body))) == Ok::<(Seq<u8>, Seq<u8>), ParseError>(
            (title, body),
        ),
{
    let d = delim_line();
    let kp = title_prefix();
    let text = render_spec(Some(title), Some(body));
    let l1 = kp + title;
    assert(forall|i: int| 0 <= i < d.len() ==> d[i] != 10u8);
    assert forall|i: int| 0 <= i < l1.len() implies l1[i] != 10u8 by {
        if i >= kp.len() {
            assert(l1[i] == title[i - kp.len()]);
        }
    }
    assert(text =~= d + seq![10u8] + (l1 + seq![10u8] + (d + seq![10u8] + body)));
    lemma_split_line_prefix(d, l1 + seq![10u8] + (d + seq![10u8] + body));
    lemma_split_line_prefix(l1, d + seq![10u8] + body);
    lemma_split_line_prefix(d, body);
    let ls = line_split(text);
    assert(ls =~~= seq![d, l1, d] + line_split(body));
    lemma_line_split_nonempty(body);
    lemma_join_split(body);

    assert(ls[0] == d);
    lemma_first_delim_is(ls, 0);
    let rest = ls.skip(1);
    assert(rest =~~= seq![l1, d] + line_split(body));
    assert(rest[0] == l1 && rest[1] == d);
    assert(l1.len() >= 8);
    assert(rest[0] != delim_line());
    lemma_first_delim_is(rest, 1);

    let meta = rest.take(1);
    assert(meta =~~= seq![l1]);
    assert(rest.skip(2) =~~= line_split(body));
    assert(line_join(rest.skip(2)) == body);

    assert(l1[5] == 58u8);
    assert(forall|k: int| 0 <= k < 5 ==> l1[k] != 58u8);
    lemma_first_colon_is(l1, 5);
    assert(line_has_colon(l1));
    assert(meta_well_formed(meta));
    assert(line_key(l1) =~= title_key());
    assert(is_title_line(l1));
    assert(meta.drop_last() =~~= Seq::<Seq<u8>>::empty());
    assert(meta.last() == l1);
    let raw = l1.skip(6);
    assert(raw =~= seq![32u8] + title);
    assert(raw.first() == 32u8);
    assert(line_value(l1) =~= title);
    assert(meta_title(Seq::<Seq<u8>>::empty()) is None);
    assert(meta_title(meta) == Some(title));
    assert(decode_meta(meta) == Ok::<Seq<u8>, ParseError>(title));
}

} // verus!
