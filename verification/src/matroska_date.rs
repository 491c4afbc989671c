use vstd::prelude::*;
use crate::ascii::{eq_ignore_case, str_eq_ignore_case};
use crate::errors::RenameError;

verus! {

/// The value of a Matroska simple tag: UTF-8 text or an opaque binary blob.
/// Only text values can carry a date.
pub enum TagValue {
    Text(String),
    Binary(Vec<u8>),
}

/// The ghost reading of a tag value.
pub enum TagValueV {
    Text(Seq<char>),
    Binary(Seq<u8>),
}

impl View for TagValue {
    type V = TagValueV;

    open spec fn view(&self) -> TagValueV {
        match self {
            TagValue::Text(s) => TagValueV::Text(s@),
            TagValue::Binary(b) => TagValueV::Binary(b@),
        }
    }
}

/// A named entry of a Matroska tag block.
pub struct SimpleTag {
    pub name: String,
    pub value: Option<TagValue>,
}

/// The ghost reading of a simple tag.
pub struct SimpleTagV {
    pub name: Seq<char>,
    pub value: Option<TagValueV>,
}

impl View for SimpleTag {
    type V = SimpleTagV;

    open spec fn view(&self) -> SimpleTagV {
        SimpleTagV {
            name: self.name@,
            value: match self.value {
                Option::None => None,
                Option::Some(ref v) => Some(v@),
            },
        }
    }
}

/// One Matroska tag block: its simple tags in stored order.
pub struct TagBlock {
    pub simple: Vec<SimpleTag>,
}

impl View for TagBlock {
    type V = Seq<SimpleTagV>;

    open spec fn view(&self) -> Seq<SimpleTagV> {
        self.simple@.map_values(|t: SimpleTag| t@)
    }
}

/// What date resolution reads of a parsed Matroska document: the segment
/// info date as unix seconds, and the tag blocks in stored order.
pub struct MatroskaDoc {
    pub info_date: Option<i64>,
    pub tags: Vec<TagBlock>,
}

/// The ghost reading of a document.
pub struct MatroskaDocV {
    pub info_date: Option<i64>,
    pub tags: Seq<Seq<SimpleTagV>>,
}

impl View for MatroskaDoc {
    type V = MatroskaDocV;

    open spec fn view(&self) -> MatroskaDocV {
        MatroskaDocV { info_date: self.info_date, tags: self.tags@.map_values(|b: TagBlock| b@) }
    }
}

/// The tag name under which Apple devices store a timezone-qualified
/// creation date, compared without regard to ASCII case.
pub open spec fn spec_is_qt_name(n: Seq<char>) -> bool {
    eq_ignore_case(n, "com.apple.quicktime.creationdate"@)
}

fn is_qt_name(name: &str) -> (r: bool)
    ensures
        r == spec_is_qt_name(name@),
{
    str_eq_ignore_case(name, "com.apple.quicktime.creationdate")
}

/// The instant named by an ISO-8601 timestamp text (full profile: date,
/// time and offset), in whole unix seconds; nothing when the text does not
/// parse.  A function of the characters alone.
pub uninterp spec fn iso8601_unix_seconds(s: Seq<char>) -> Option<i64>;

/// Relies on `time::OffsetDateTime::parse` with the `Iso8601` well-known
/// format, and on `unix_timestamp`, which discards the sub-second part:
/// whether the text parses, and the instant it names, depend on the
/// characters alone.
#[verifier::external_body]
fn parse_iso8601(s: &str) -> (r: Option<i64>)
    ensures
        r == iso8601_unix_seconds(s@),
{
    match time::OffsetDateTime::parse(s, &time::format_description::well_known::Iso8601::DEFAULT) {
        Ok(dt) => Some(dt.unix_timestamp()),
        Err(_) => None,
    }
}

/// The first simple tag of a block bearing the QuickTime name, if any.
pub open spec fn find_qt_in_block(b: Seq<SimpleTagV>) -> Option<SimpleTagV>
    decreases b.len(),
{
    if b.len() == 0 {
        None
    } else if spec_is_qt_name(b[0].name) {
        Some(b[0])
    } else {
        find_qt_in_block(b.drop_first())
    }
}

/// The first QuickTime-named simple tag over all blocks, in stored order.
pub open spec fn find_qt_tag(tags: Seq<Seq<SimpleTagV>>) -> Option<SimpleTagV>
    decreases tags.len(),
{
    if tags.len() == 0 {
        None
    } else {
        match find_qt_in_block(tags[0]) {
            Option::Some(t) => Some(t),
            Option::None => find_qt_tag(tags.drop_first()),
        }
    }
}

/// The date a QuickTime tag yields: its text parsed as ISO-8601.  A missing
/// or binary value, or text the parser rejects, yields nothing.
pub open spec fn qt_decode(t: SimpleTagV) -> Option<i64> {
    match t.value {
        Option::Some(TagValueV::Text(s)) => iso8601_unix_seconds(s),
        _ => None,
    }
}

/// The date the document's QuickTime tag yields, if any.
pub open spec fn spec_qt_date(tags: Seq<Seq<SimpleTagV>>) -> Option<i64> {
    match find_qt_tag(tags) {
        Option::Some(t) => qt_decode(t),
        Option::None => None,
    }
}

/// Matroska date precedence: the QuickTime tag's date when it decodes, else
/// the segment info date, else nothing.
pub open spec fn spec_matroska_date(doc: MatroskaDocV) -> Option<i64> {
    match spec_qt_date(doc.tags) {
        Option::Some(ts) => Some(ts),
        Option::None => doc.info_date,
    }
}

proof fn lemma_find_qt_in_block_skip(b: Seq<SimpleTagV>, i: int)
    requires
        0 <= i <= b.len(),
        forall|y: int| 0 <= y < i ==> !spec_is_qt_name(b[y].name),
    ensures
        find_qt_in_block(b) == find_qt_in_block(b.skip(i)),
    decreases i,
{
    if i == 0 {
        assert(b.skip(0) =~= b);
    } else {
        assert(!spec_is_qt_name(b[0].name));
        lemma_find_qt_in_block_skip(b.drop_first(), i - 1);
        assert(b.drop_first().skip(i - 1) =~= b.skip(i));
    }
}

proof fn lemma_find_qt_tag_skip(tags: Seq<Seq<SimpleTagV>>, i: int)
    requires
        0 <= i <= tags.len(),
        forall|x: int| 0 <= x < i ==> find_qt_in_block(#[trigger] tags[x]) is None,
    ensures
        find_qt_tag(tags) == find_qt_tag(tags.skip(i)),
    decreases i,
{
    if i == 0 {
        assert(tags.skip(0) =~= tags);
    } else {
        assert(find_qt_in_block(tags[0]) is None);
        lemma_find_qt_tag_skip(tags.drop_first(), i - 1);
        assert(tags.drop_first().skip(i - 1) =~= tags.skip(i));
    }
}

/// The date the document's QuickTime tag yields, scanning blocks and their
/// entries in stored order and decoding the first tag that bears the name.
fn qt_tag_date(doc: &MatroskaDoc) -> (r: Option<i64>)
    ensures
        r == spec_qt_date(doc@.tags),
{
    let ghost tags = doc@.tags;
    let n: usize = doc.tags.len();
    let mut bi: usize = 0;
    while bi < n
        invariant
            bi <= n,
            n == doc.tags@.len(),
            tags == doc@.tags,
            tags.len() == n,
            forall|x: int| 0 <= x < bi ==> find_qt_in_block(#[trigger] tags[x]) is None,
        decreases n - bi,
    {
        let block = &doc.tags[bi];
        proof {
            assert(tags[bi as int] == block@);
        }
        let m: usize = block.simple.len();
        let mut si: usize = 0;
        while si < m
            invariant
                si <= m,
                m == block.simple@.len(),
                bi < n,
                tags == doc@.tags,
                tags.len() == n,
                block@ == tags[bi as int],
                block@.len() == m,
                forall|x: int| 0 <= x < bi ==> find_qt_in_block(#[trigger] tags[x]) is None,
                forall|y: int| 0 <= y < si ==> !spec_is_qt_name(#[trigger] block@[y].name),
            decreases m - si,
        {
            let st = &block.simple[si];
            proof {
                assert(block@[si as int] == st@);
            }
            if is_qt_name(st.name.as_str()) {
                proof {
                    lemma_find_qt_in_block_skip(block@, si as int);
                    assert(block@.skip(si as int)[0] == st@);
                    assert(find_qt_in_block(block@) == Some(st@));
                    lemma_find_qt_tag_skip(tags, bi as int);
                    assert(tags.skip(bi as int)[0] == block@);
                    assert(find_qt_tag(tags) == Some(st@));
                }
                match &st.value {
                    Option::Some(TagValue::Text(s)) => {
                        proof {
                            assert(st@.value == Some(TagValueV::Text(s@)));
                            assert(spec_qt_date(tags) == iso8601_unix_seconds(s@));
                        }
                        return parse_iso8601(s.as_str());
                    },
                    _ => {
                        proof {
                            assert(qt_decode(st@) is None);
                        }
                        return None;
                    },
                }
            }
            si = si + 1;
        }
        proof {
            lemma_find_qt_in_block_skip(block@, m as int);
            assert(block@.skip(m as int).len() == 0);
            assert(find_qt_in_block(tags[bi as int]) is None);
        }
        bi = bi + 1;
    }
    proof {
        lemma_find_qt_tag_skip(tags, n as int);
        assert(tags.skip(n as int).len() == 0);
    }
    None
}

/// Resolve a Matroska document's creation date.  Precedence, first match
/// wins: the QuickTime creation-date tag when its text decodes; else the
/// segment info date; else the date is not found.  A bad tag value falls
/// through, it does not abort.
pub fn resolve_matroska_date(doc: &MatroskaDoc) -> (r: Result<i64, RenameError>)
    ensures
        spec_matroska_date(doc@) matches Some(ts) ==> r == Ok::<i64, RenameError>(ts),
        spec_matroska_date(doc@) is None ==> r == Err::<i64, RenameError>(RenameError::DateNotFound),
{
    match qt_tag_date(doc) {
        Option::Some(ts) => Ok(ts),
        Option::None => match doc.info_date {
            Option::Some(d) => Ok(d),
            Option::None => Err(RenameError::DateNotFound),
        },
    }
}

/// Precedence: when the document bears a QuickTime creation-date tag whose
/// text decodes, the resolved date is that tag's date — never the info
/// date, whether or not one is present.
pub proof fn lemma_qt_tag_takes_precedence(doc: MatroskaDocV, t: SimpleTagV, ts: i64)
    requires
        find_qt_tag(doc.tags) == Some(t),
        qt_decode(t) == Some(ts),
    ensures
        spec_matroska_date(doc) == Some(ts),
{
}

/// Fallback: with no QuickTime-named tag anywhere, the resolved date is
/// exactly the segment info date (present or not).
pub proof fn lemma_info_date_fallback(doc: MatroskaDocV)
    requires
        find_qt_tag(doc.tags) is None,
    ensures
        spec_matroska_date(doc) == doc.info_date,
{
}

/// Fall-through on a bad tag: a QuickTime tag whose value is binary,
/// missing, or text the parser rejects leaves the info date in force
/// rather than failing.
pub proof fn lemma_bad_tag_falls_through(doc: MatroskaDocV, t: SimpleTagV)
    requires
        find_qt_tag(doc.tags) == Some(t),
        qt_decode(t) is None,
    ensures
        spec_matroska_date(doc) == doc.info_date,
{
}

/// No date at all: without a usable QuickTime tag and without an info date,
/// resolution yields nothing.
pub proof fn lemma_no_date_yields_nothing(doc: MatroskaDocV)
    requires
        spec_qt_date(doc.tags) is None,
        doc.info_date is None,
    ensures
        spec_matroska_date(doc) is None,
{
}

} // verus!
