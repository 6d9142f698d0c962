use vstd::prelude::*;

use crate::decimal::{dec_units, parse_decimal};
use crate::spatial::Coordinate;
use vstd::slice::slice_subrange;

verus! {

/// A KML footprint: the bounding box of every coordinate in the file.
#[derive(Debug, Clone, Copy, PartialEq)]
pub struct KMLRegion {
    pub top_right: Coordinate,
    pub bottom_left: Coordinate,
}

/// A parsed KML file.
#[derive(Debug, Clone, PartialEq)]
pub struct KMLMetadata {
    pub region: KMLRegion,
    pub tags: Vec<(String, String)>,
}

/// Errors of the KML reader.
#[derive(Debug, PartialEq)]
pub enum KMLErrorState {
    UnexpectedFormat(String),
    NotEnoughGeoData,
}

/// A KML source file.
#[derive(Debug, Clone)]
pub struct KMLMap {
    pub path: String,
}

/// The least longitude among the coordinates.
pub open spec fn seq_min(s: Seq<i64>) -> i64
    decreases s.len(),
{
    if s.len() == 0 {
        0
    } else if s.len() == 1 {
        s[0]
    } else if s.last() < seq_min(s.drop_last()) {
        s.last()
    } else {
        seq_min(s.drop_last())
    }
}

pub open spec fn seq_max(s: Seq<i64>) -> i64
    decreases s.len(),
{
    if s.len() == 0 {
        0
    } else if s.len() == 1 {
        s[0]
    } else if s.last() > seq_max(s.drop_last()) {
        s.last()
    } else {
        seq_max(s.drop_last())
    }
}

/// The least element bounds every element from below and is attained;
/// likewise for the greatest.
pub proof fn lemma_seq_min_max(s: Seq<i64>)
    requires
        s.len() > 0,
    ensures
        forall|i: int| 0 <= i < s.len() ==> seq_min(s) <= #[trigger] s[i] <= seq_max(s),
        exists|i: int| 0 <= i < s.len() && s[i] == seq_min(s),
        exists|i: int| 0 <= i < s.len() && s[i] == seq_max(s),
    decreases s.len(),
{
    if s.len() == 1 {
        assert(s[0] == seq_min(s));
        assert(s[0] == seq_max(s));
    } else {
        lemma_seq_min_max(s.drop_last());
        assert forall|i: int| 0 <= i < s.len() implies seq_min(s) <= #[trigger] s[i] <= seq_max(
            s,
        ) by {
            if i < s.len() - 1 {
                assert(s.drop_last()[i] == s[i]);
            }
        }
        if s.last() < seq_min(s.drop_last()) {
            assert(s[s.len() - 1] == seq_min(s));
        } else {
            let i = choose|i: int|
                0 <= i < s.drop_last().len() && s.drop_last()[i] == seq_min(s.drop_last());
            assert(s[i] == seq_min(s));
        }
        if s.last() > seq_max(s.drop_last()) {
            assert(s[s.len() - 1] == seq_max(s));
        } else {
            let i = choose|i: int|
                0 <= i < s.drop_last().len() && s.drop_last()[i] == seq_max(s.drop_last());
            assert(s[i] == seq_max(s));
        }
    }
}

/// The longitudes of a coordinate list.
pub open spec fn lons(cs: Seq<Coordinate>) -> Seq<i64> {
    cs.map_values(|c: Coordinate| c.0)
}

/// The latitudes of a coordinate list.
pub open spec fn lats(cs: Seq<Coordinate>) -> Seq<i64> {
    cs.map_values(|c: Coordinate| c.1)
}

/// Draw the bounding box of a non-empty coordinate list: the pair of
/// its south-western and north-eastern corners.
pub fn get_boundaries(coordinates: Vec<Coordinate>) -> (r: (Coordinate, Coordinate))
    requires
        coordinates@.len() > 0,
    ensures
        r.0 == (seq_min(lons(coordinates@)), seq_min(lats(coordinates@))),
        r.1 == (seq_max(lons(coordinates@)), seq_max(lats(coordinates@))),
{
    let c0 = coordinates[0];
    let mut min_x: i64 = c0.0;
    let mut min_y: i64 = c0.1;
    let mut max_x: i64 = c0.0;
    let mut max_y: i64 = c0.1;
    let mut i: usize = 1;
    proof {
        assert(lons(coordinates@.subrange(0, 1)) =~= seq![coordinates@[0].0]);
        assert(lats(coordinates@.subrange(0, 1)) =~= seq![coordinates@[0].1]);
    }
    while i < coordinates.len()
        invariant
            1 <= i <= coordinates@.len(),
            min_x == seq_min(lons(coordinates@.subrange(0, i as int))),
            max_x == seq_max(lons(coordinates@.subrange(0, i as int))),
            min_y == seq_min(lats(coordinates@.subrange(0, i as int))),
            max_y == seq_max(lats(coordinates@.subrange(0, i as int))),
        decreases coordinates@.len() - i,
    {
        let c = coordinates[i];
        proof {
            let prev = coordinates@.subrange(0, i as int);
            let cur = coordinates@.subrange(0, i + 1);
            assert(lons(cur).drop_last() =~= lons(prev));
            assert(lats(cur).drop_last() =~= lats(prev));
            assert(lons(cur).last() == c.0);
            assert(lats(cur).last() == c.1);
        }
        if c.0 > max_x {
            max_x = c.0;
        }
        if c.0 < min_x {
            min_x = c.0;
        }
        if c.1 > max_y {
            max_y = c.1;
        }
        if c.1 < min_y {
            min_y = c.1;
        }
        i = i + 1;
    }
    proof {
        assert(coordinates@.subrange(0, coordinates@.len() as int) =~= coordinates@);
    }
    ((min_x, min_y), (max_x, max_y))
}

/// An ASCII whitespace byte, which separates coordinate tokens.
pub open spec fn is_ws(b: u8) -> bool {
    b == 32 || 9 <= b <= 13
}

/// The first position at or after `i` that is not whitespace.
pub open spec fn skip_ws(b: Seq<u8>, i: int) -> int
    decreases b.len() - i,
{
    if i < 0 || i >= b.len() || !is_ws(b[i]) {
        i
    } else {
        skip_ws(b, i + 1)
    }
}

/// The end of the token starting at `i`: the first whitespace at or
/// after `i`, or the end of the text.
pub open spec fn token_end(b: Seq<u8>, i: int) -> int
    decreases b.len() - i,
{
    if i < 0 || i >= b.len() || is_ws(b[i]) {
        i
    } else {
        token_end(b, i + 1)
    }
}

pub proof fn lemma_scan_bounds(b: Seq<u8>, i: int)
    requires
        0 <= i <= b.len(),
    ensures
        i <= skip_ws(b, i) <= b.len(),
        i <= token_end(b, i) <= b.len(),
    decreases b.len() - i,
{
    if i < b.len() {
        lemma_scan_bounds(b, i + 1);
    }
}

/// The first comma within the field starting at `i` and ending at `e`,
/// or `e` itself.
pub open spec fn field_end(b: Seq<u8>, i: int, e: int) -> int
    decreases e - i,
{
    if i < 0 || i >= e || b[i] == 44 {
        i
    } else {
        field_end(b, i + 1, e)
    }
}

pub proof fn lemma_field_end_bounds(b: Seq<u8>, i: int, e: int)
    requires
        0 <= i <= e,
    ensures
        i <= field_end(b, i, e) <= e,
        field_end(b, i, e) < e ==> b[field_end(b, i, e)] == 44,
    decreases e - i,
{
    if i < e && b[i] != 44 {
        lemma_field_end_bounds(b, i + 1, e);
    }
}

/// The coordinate a token denotes: its first two comma-separated
/// fields, as decimal longitude and latitude; any further fields are
/// discarded.  Nothing when a comma is missing or a field does not
/// parse.
pub open spec fn token_pair(b: Seq<u8>, s: int, e: int) -> Option<Coordinate> {
    let c1 = field_end(b, s, e);
    let c2 = field_end(b, c1 + 1, e);
    if c1 >= e {
        None
    } else {
        match (dec_units(b.subrange(s, c1)), dec_units(b.subrange(c1 + 1, c2))) {
            (Some(lon), Some(lat)) => Some((lon, lat)),
            _ => None,
        }
    }
}

/// The coordinates the text denotes from position `i` on: one for each
/// whitespace-separated token, in order; nothing once a token is
/// malformed.
pub open spec fn text_pairs(b: Seq<u8>, i: int) -> Option<Seq<Coordinate>>
    decreases b.len() - i,
{
    let s = skip_ws(b, i);
    if i < 0 || s >= b.len() {
        Some(Seq::empty())
    } else {
        let e = token_end(b, s);
        if e <= i || e > b.len() {
            Some(Seq::empty())  // unreachable: the token is non-empty
        } else {
            match token_pair(b, s, e) {
                None => None,
                Some(p) => match text_pairs(b, e) {
                    None => None,
                    Some(rest) => Some(seq![p] + rest),
                },
            }
        }
    }
}

fn ws_byte(c: u8) -> (r: bool)
    ensures
        r == is_ws(c),
{
    c == 32 || (9 <= c && c <= 13)
}

fn skip_ws_exec(b: &[u8], i: usize) -> (r: usize)
    requires
        i <= b@.len(),
    ensures
        r == skip_ws(b@, i as int),
        i <= r <= b@.len(),
        r < b@.len() ==> !is_ws(b@[r as int]),
{
    let mut j: usize = i;
    while j < b.len() && ws_byte(b[j])
        invariant
            i <= j <= b@.len(),
            skip_ws(b@, i as int) == skip_ws(b@, j as int),
        decreases b@.len() - j,
    {
        j = j + 1;
    }
    j
}

fn token_end_exec(b: &[u8], i: usize) -> (r: usize)
    requires
        i <= b@.len(),
    ensures
        r == token_end(b@, i as int),
        i <= r <= b@.len(),
{
    let mut j: usize = i;
    while j < b.len() && !ws_byte(b[j])
        invariant
            i <= j <= b@.len(),
            token_end(b@, i as int) == token_end(b@, j as int),
        decreases b@.len() - j,
    {
        j = j + 1;
    }
    j
}

fn field_end_exec(b: &[u8], i: usize, e: usize) -> (r: usize)
    requires
        i <= e <= b@.len(),
    ensures
        r == field_end(b@, i as int, e as int),
        i <= r <= e,
{
    let mut j: usize = i;
    while j < e && b[j] != 44
        invariant
            i <= j <= e <= b@.len(),
            field_end(b@, i as int, e as int) == field_end(b@, j as int, e as int),
        decreases e - j,
    {
        j = j + 1;
    }
    j
}

/// Collect the coordinates of one run of character data: exactly
/// `text_pairs` of the bytes, appended to `coords`; a malformed token
/// is reported and appends nothing further.
#[verifier::rlimit(100)]
#[verifier::spinoff_prover]
pub fn parse_coordinate_text(text: &[u8], coords: &mut Vec<Coordinate>) -> (r: Result<
    (),
    KMLErrorState,
>)
    ensures
        text_pairs(text@, 0) matches Some(ps) ==> r == Ok::<(), KMLErrorState>(())
            && final(coords)@ == old(coords)@ + ps,
        text_pairs(text@, 0) is None ==> (r matches Err(KMLErrorState::UnexpectedFormat(_))
            && final(coords)@.len() >= old(coords)@.len() && forall|i: int|
            0 <= i < old(coords)@.len() ==> final(coords)@[i] == old(coords)@[i]),
{
    let ghost orig = coords@;
    let mut pos: usize = 0;
    loop
        invariant
            orig == old(coords)@,
            pos <= text@.len(),
            coords@.len() >= orig.len(),
            forall|i: int| 0 <= i < orig.len() ==> coords@[i] == orig[i],
            text_pairs(text@, pos as int) matches Some(rest) ==> (text_pairs(text@, 0) matches Some(
                all,
            ) && all == coords@.subrange(orig.len() as int, coords@.len() as int) + rest),
            text_pairs(text@, pos as int) is None ==> text_pairs(text@, 0) is None,
        ensures
            text_pairs(text@, 0) matches Some(ps) ==> coords@ == orig + ps,
            text_pairs(text@, 0) is None ==> coords@.len() >= orig.len() && forall|i: int|
                0 <= i < orig.len() ==> coords@[i] == orig[i],
        decreases text@.len() - pos,
    {
        let s = skip_ws_exec(text, pos);
        if s >= text.len() {
            proof {
                assert(text_pairs(text@, pos as int) == Some(Seq::<Coordinate>::empty()));
                assert(coords@.subrange(orig.len() as int, coords@.len() as int) + Seq::<
                    Coordinate,
                >::empty() =~= coords@.subrange(orig.len() as int, coords@.len() as int));
                if text_pairs(text@, 0) is Some {
                    let all = text_pairs(text@, 0)->Some_0;
                    assert(orig + all =~= coords@) by {
                        assert(all == coords@.subrange(orig.len() as int, coords@.len() as int));
                        assert(forall|i: int| 0 <= i < orig.len() ==> coords@[i] == orig[i]);
                    }
                }
            }
            return Ok(());
        }
        let e = token_end_exec(text, s);
        proof {
            assert(!is_ws(text@[s as int]));
            lemma_scan_bounds(text@, s + 1);
            assert(token_end(text@, s as int) == token_end(text@, s + 1));
            assert(e > s);
        }
        let c1 = field_end_exec(text, s, e);
        if c1 >= e {
            proof {
                assert(token_pair(text@, s as int, e as int) is None);
                assert(text_pairs(text@, pos as int) is None);
            }
            return Err(
                KMLErrorState::UnexpectedFormat(
                    String::from_str("expected a comma-separated coordinate pair"),
                ),
            );
        }
        let c2 = field_end_exec(text, c1 + 1, e);
        let lon_bytes = slice_subrange(text, s, c1);
        let lat_bytes = slice_subrange(text, c1 + 1, c2);
        proof {
            assert(lon_bytes@ =~= text@.subrange(s as int, c1 as int));
            assert(lat_bytes@ =~= text@.subrange(c1 + 1, c2 as int));
        }
        let lon = match parse_decimal(lon_bytes) {
            Some(v) => v,
            None => {
                proof {
                    assert(token_pair(text@, s as int, e as int) is None);
                    assert(text_pairs(text@, pos as int) is None);
                }
                return Err(
                    KMLErrorState::UnexpectedFormat(
                        String::from_str("failed to parse a coordinate field"),
                    ),
                );
            },
        };
        let lat = match parse_decimal(lat_bytes) {
            Some(v) => v,
            None => {
                proof {
                    assert(token_pair(text@, s as int, e as int) is None);
                    assert(text_pairs(text@, pos as int) is None);
                }
                return Err(
                    KMLErrorState::UnexpectedFormat(
                        String::from_str("failed to parse a coordinate field"),
                    ),
                );
            },
        };
        proof {
            assert(token_pair(text@, s as int, e as int) == Some((lon, lat)));
        }
        coords.push((lon, lat));
        proof {
            let done = coords@.subrange(orig.len() as int, coords@.len() as int);
            let done_prev = coords@.subrange(orig.len() as int, coords@.len() - 1);
            assert(done =~= done_prev + seq![(lon, lat)]);
            if text_pairs(text@, e as int) is Some {
                let rest = text_pairs(text@, e as int)->Some_0;
                assert(text_pairs(text@, pos as int) == Some(seq![(lon, lat)] + rest));
                assert(done_prev + (seq![(lon, lat)] + rest) =~= done + rest);
            }
        }
        pos = e;
    }
}

/// The tag list every KML result carries.
pub open spec fn kml_tags_ok(tags: Seq<(String, String)>) -> bool {
    tags.len() == 1 && tags[0].0@ == "Filetype"@ && tags[0].1@ == "KML"@
}

/// The bounding box of the coordinates lies within the WGS-84 ranges;
/// since the box is attained, this holds exactly when every collected
/// coordinate does.
pub open spec fn bbox_in_bounds(cs: Seq<Coordinate>) -> bool {
    &&& crate::spatial::coordinate_in_bounds((seq_min(lons(cs)), seq_min(lats(cs))))
    &&& crate::spatial::coordinate_in_bounds((seq_max(lons(cs)), seq_max(lats(cs))))
}

/// Build the metadata of a KML file from its collected coordinates:
/// their bounding box, `NotEnoughGeoData` when the file yielded none,
/// and a rejection when a coordinate lies outside the WGS-84 ranges -
/// every region the reader exposes is a well-formed rectangle in range.
pub fn kml_from_coordinates(coordinates: Vec<Coordinate>) -> (r: Result<KMLMetadata, KMLErrorState>)
    ensures
        coordinates@.len() == 0 ==> r == Err::<KMLMetadata, KMLErrorState>(
            KMLErrorState::NotEnoughGeoData,
        ),
        coordinates@.len() > 0 && !bbox_in_bounds(coordinates@) ==> (r matches Err(
            KMLErrorState::UnexpectedFormat(_),
        )),
        coordinates@.len() > 0 && bbox_in_bounds(coordinates@) ==> (r matches Ok(m)
            && m.region.bottom_left == (seq_min(lons(coordinates@)), seq_min(lats(coordinates@)))
            && m.region.top_right == (seq_max(lons(coordinates@)), seq_max(lats(coordinates@)))
            && kml_tags_ok(m.tags@)),
{
    if coordinates.len() == 0 {
        return Err(KMLErrorState::NotEnoughGeoData);
    }
    let mut tags: Vec<(String, String)> = Vec::new();
    tags.push((String::from_str("Filetype"), String::from_str("KML")));
    let (bottom_left, top_right) = get_boundaries(coordinates);
    let sc = crate::COORD_SCALE;
    if !(-180 * sc <= bottom_left.0 && top_right.0 <= 180 * sc && -90 * sc <= bottom_left.1
        && top_right.1 <= 90 * sc) {
        return Err(
            KMLErrorState::UnexpectedFormat(
                String::from_str("a coordinate lies outside the WGS-84 ranges"),
            ),
        );
    }
    Ok(KMLMetadata { region: KMLRegion { bottom_left, top_right }, tags })
}

/// One pulled XML event, reduced to what the reader consumes: element
/// boundaries by local name, character data (both as their UTF-8
/// bytes), the end of the document, and a reader fault, which ends the
/// scan as the end of the document does.
#[derive(Debug, Clone, PartialEq)]
pub enum XmlPullEvent {
    StartElement(Vec<u8>),
    Characters(Vec<u8>),
    EndElement(Vec<u8>),
    EndDocument,
    Fault,
    Other,
}

/// The `n`-th event of the XML event stream of a byte sequence.  The
/// pull parser reads nothing but the bytes it was built over, so the
/// stream is a function of the bytes and the position alone; after the
/// document ends, the reader repeats its final event.
pub uninterp spec fn xml_event_at(bytes: Seq<u8>, n: int) -> XmlPullEvent;

/// The opaque pull parser; its `Read` bound cannot be declared, so the
/// reader is held opaque and paired below with the facts its pump is
/// keyed to.
#[verifier::external_body]
struct XmlPullInner<'a> {
    reader: xml::reader::EventReader<&'a [u8]>,
}

/// A pull parser over the bytes of a KML document: the opaque reader,
/// the bytes it was built over, and how many events were pulled.
pub struct KmlEventSource<'a> {
    inner: XmlPullInner<'a>,
    data: &'a [u8],
    consumed: u64,
}

/// Relies on xml::reader::EventReader::new to build a pull parser over
/// the bytes, positioned before the first event.
#[verifier::external_body]
fn xml_events_new<'a>(bytes: &'a [u8]) -> (src: KmlEventSource<'a>)
    ensures
        src.data@ == bytes@,
        src.consumed == 0,
{
    KmlEventSource {
        inner: XmlPullInner { reader: xml::reader::EventReader::new(bytes) },
        data: bytes,
        consumed: 0,
    }
}

/// Relies on xml::reader::EventReader::next: the reader pulls the
/// events of its bytes in order, so the result is the stream's event
/// at the count pulled so far.  An element's local name and a
/// character run's text move out as their bytes.
#[verifier::external_body]
fn xml_events_next(src: &mut KmlEventSource) -> (e: XmlPullEvent)
    requires
        old(src).consumed < u64::MAX,
    ensures
        final(src).data@ == old(src).data@,
        final(src).consumed == old(src).consumed + 1,
        e == xml_event_at(old(src).data@, old(src).consumed as int),
{
    src.consumed = src.consumed + 1;
    match src.inner.reader.next() {
        Ok(xml::reader::XmlEvent::StartElement { name, .. }) => XmlPullEvent::StartElement(
            name.local_name.into_bytes(),
        ),
        Ok(xml::reader::XmlEvent::Characters(text)) => XmlPullEvent::Characters(text.into_bytes()),
        Ok(xml::reader::XmlEvent::EndElement { name }) => XmlPullEvent::EndElement(
            name.local_name.into_bytes(),
        ),
        Ok(xml::reader::XmlEvent::EndDocument) => XmlPullEvent::EndDocument,
        Ok(_) => XmlPullEvent::Other,
        Err(_) => XmlPullEvent::Fault,
    }
}

/// Whether two byte strings are equal.
fn bytes_eq(a: &[u8], b: &[u8]) -> (r: bool)
    ensures
        r == (a@ == b@),
{
    if a.len() != b.len() {
        proof {
            assert(a@.len() != b@.len());
        }
        return false;
    }
    let mut i: usize = 0;
    while i < a.len()
        invariant
            i <= a@.len(),
            a@.len() == b@.len(),
            forall|j: int| 0 <= j < i ==> a@[j] == b@[j],
        decreases a@.len() - i,
    {
        if a[i] != b[i] {
            return false;
        }
        i = i + 1;
    }
    proof {
        assert(a@ =~= b@);
    }
    true
}

/// The bytes of the element name `coordinates`.
pub open spec fn coords_label() -> Seq<u8> {
    seq![99u8, 111u8, 111u8, 114u8, 100u8, 105u8, 110u8, 97u8, 116u8, 101u8, 115u8]
}

pub fn coords_label_vec() -> (v: Vec<u8>)
    ensures
        v@ == coords_label(),
{
    let mut v: Vec<u8> = Vec::new();
    v.push(99);
    v.push(111);
    v.push(111);
    v.push(114);
    v.push(100);
    v.push(105);
    v.push(110);
    v.push(97);
    v.push(116);
    v.push(101);
    v.push(115);
    proof {
        assert(v@ =~= coords_label());
    }
    v
}

/// How many events the reader inspects at most: a file of `n` bytes
/// yields fewer events, so a longer stream is malformed.
pub open spec fn kml_fuel(b: Seq<u8>) -> nat {
    if b.len() > 0x1000_0000_0000_0000 {
        0xFFFF_FFFF_FFFF_FFFF
    } else {
        (2 * b.len() + 64) as nat
    }
}

/// The coordinates the event stream denotes from event `n` on, given
/// whether a `coordinates` element is open and how many events may
/// still be inspected: the scan the reader performs.  The document's
/// end or a reader fault closes the scan; a malformed coordinate run
/// ends it with an error; a stream that outlives the fuel yields
/// nothing.
pub open spec fn kml_collect(b: Seq<u8>, n: int, fuel: nat, in_coords: bool) -> Option<
    Result<Seq<Coordinate>, ()>,
>
    decreases fuel,
{
    if fuel == 0 {
        None
    } else {
        match xml_event_at(b, n) {
            XmlPullEvent::EndDocument => Some(Ok(Seq::empty())),
            XmlPullEvent::Fault => Some(Ok(Seq::empty())),
            XmlPullEvent::StartElement(name) => kml_collect(
                b,
                n + 1,
                (fuel - 1) as nat,
                if !in_coords && name@ == coords_label() {
                    true
                } else {
                    in_coords
                },
            ),
            XmlPullEvent::EndElement(name) => kml_collect(
                b,
                n + 1,
                (fuel - 1) as nat,
                if in_coords && name@ == coords_label() {
                    false
                } else {
                    in_coords
                },
            ),
            XmlPullEvent::Characters(text) => if in_coords {
                match text_pairs(text@, 0) {
                    None => Some(Err(())),
                    Some(ps) => match kml_collect(b, n + 1, (fuel - 1) as nat, in_coords) {
                        None => None,
                        Some(Err(e)) => Some(Err(e)),
                        Some(Ok(rest)) => Some(Ok(ps + rest)),
                    },
                }
            } else {
                kml_collect(b, n + 1, (fuel - 1) as nat, in_coords)
            },
            XmlPullEvent::Other => kml_collect(b, n + 1, (fuel - 1) as nat, in_coords),
        }
    }
}

/// Parse a KML file: stream its XML events, collect the coordinates of
/// every `coordinates` element's character data, and return their
/// bounding box.  The result is exactly what the event-stream scan
/// `kml_collect` denotes: its collected coordinates' box, or
/// `NotEnoughGeoData` for none, or the scan's error.
pub fn parse_kml(data: &[u8]) -> (r: Result<KMLMetadata, KMLErrorState>)
    ensures
        r matches Ok(m) ==> m.region.bottom_left.0 <= m.region.top_right.0
            && m.region.bottom_left.1 <= m.region.top_right.1 && kml_tags_ok(m.tags@),
        kml_collect(data@, 0, kml_fuel(data@), false) matches Some(Ok(cs)) ==> (if cs.len() == 0 {
            r == Err::<KMLMetadata, KMLErrorState>(KMLErrorState::NotEnoughGeoData)
        } else if !bbox_in_bounds(cs) {
            r matches Err(KMLErrorState::UnexpectedFormat(_))
        } else {
            r matches Ok(m) && m.region.bottom_left == (seq_min(lons(cs)), seq_min(lats(cs)))
                && m.region.top_right == (seq_max(lons(cs)), seq_max(lats(cs))) && kml_tags_ok(
                m.tags@,
            )
        }),
        kml_collect(data@, 0, kml_fuel(data@), false) matches Some(Err(_)) ==> (r matches Err(
            KMLErrorState::UnexpectedFormat(_),
        )),
        kml_collect(data@, 0, kml_fuel(data@), false) is None ==> (r matches Err(
            KMLErrorState::UnexpectedFormat(_),
        )),
{
    let mut src = xml_events_new(data);
    let mut coords: Vec<Coordinate> = Vec::new();
    let mut in_coords: bool = false;
    let label = coords_label_vec();
    let dl = data.len() as u64;
    let mut fuel: u64 = if dl > 0x1000_0000_0000_0000 {
        0xFFFF_FFFF_FFFF_FFFF
    } else {
        2 * dl + 64
    };
    proof {
        assert(fuel as nat == kml_fuel(data@));
    }
    loop
        invariant_except_break
            kml_collect(data@, src.consumed as int, fuel as nat, in_coords) matches Some(Ok(rest))
                ==> (kml_collect(data@, 0, kml_fuel(data@), false) matches Some(Ok(all)) && all
                == coords@ + rest),
            kml_collect(data@, src.consumed as int, fuel as nat, in_coords) matches Some(Err(e))
                ==> (kml_collect(data@, 0, kml_fuel(data@), false) matches Some(Err(e2)) && e
                == e2),
            kml_collect(data@, src.consumed as int, fuel as nat, in_coords) is None ==> kml_collect(
                data@,
                0,
                kml_fuel(data@),
                false,
            ) is None,
        invariant
            src.data@ == data@,
            label@ == coords_label(),
            fuel as nat + src.consumed as nat == kml_fuel(data@),
        ensures
            kml_collect(data@, 0, kml_fuel(data@), false) matches Some(Ok(all)) && all == coords@,
        decreases fuel,
    {
        if fuel == 0 {
            return Err(
                KMLErrorState::UnexpectedFormat(
                    String::from_str("the event stream did not end"),
                ),
            );
        }
        let ghost n0 = src.consumed as int;
        let ghost fuel0 = fuel as nat;
        let ghost in0 = in_coords;
        let e = xml_events_next(&mut src);
        fuel = fuel - 1;
        proof {
            assert(e == xml_event_at(data@, n0));
            assert(kml_collect(data@, n0, fuel0, in0) == (match xml_event_at(data@, n0) {
                XmlPullEvent::EndDocument => Some(Ok(Seq::<Coordinate>::empty())),
                XmlPullEvent::Fault => Some(Ok(Seq::<Coordinate>::empty())),
                XmlPullEvent::StartElement(name) => kml_collect(
                    data@,
                    n0 + 1,
                    (fuel0 - 1) as nat,
                    if !in0 && name@ == coords_label() {
                        true
                    } else {
                        in0
                    },
                ),
                XmlPullEvent::EndElement(name) => kml_collect(
                    data@,
                    n0 + 1,
                    (fuel0 - 1) as nat,
                    if in0 && name@ == coords_label() {
                        false
                    } else {
                        in0
                    },
                ),
                XmlPullEvent::Characters(text) => if in0 {
                    match text_pairs(text@, 0) {
                        None => Some(Err(())),
                        Some(ps) => match kml_collect(data@, n0 + 1, (fuel0 - 1) as nat, in0) {
                            None => None,
                            Some(Err(er)) => Some(Err(er)),
                            Some(Ok(rest)) => Some(Ok(ps + rest)),
                        },
                    }
                } else {
                    kml_collect(data@, n0 + 1, (fuel0 - 1) as nat, in0)
                },
                XmlPullEvent::Other => kml_collect(data@, n0 + 1, (fuel0 - 1) as nat, in0),
            }));
        }
        match e {
            XmlPullEvent::StartElement(name) => {
                if !in_coords && bytes_eq(name.as_slice(), label.as_slice()) {
                    in_coords = true;
                }
            },
            XmlPullEvent::EndElement(name) => {
                if in_coords && bytes_eq(name.as_slice(), label.as_slice()) {
                    in_coords = false;
                }
            },
            XmlPullEvent::Characters(text) => {
                if in_coords {
                    let ghost before = coords@;
                    match parse_coordinate_text(text.as_slice(), &mut coords) {
                        Ok(_) => {
                            proof {
                                let ps = text_pairs(text@, 0)->Some_0;
                                assert(coords@ == before + ps);
                                if kml_collect(data@, n0 + 1, (fuel0 - 1) as nat, in0) is Some
                                    && kml_collect(data@, n0 + 1, (fuel0 - 1) as nat, in0)->Some_0
                                    is Ok {
                                    let rest = kml_collect(
                                        data@,
                                        n0 + 1,
                                        (fuel0 - 1) as nat,
                                        in0,
                                    )->Some_0->Ok_0;
                                    assert(kml_collect(data@, n0, fuel0, in0) == Some(
                                        Ok::<Seq<Coordinate>, ()>(ps + rest),
                                    ));
                                    assert(before + (ps + rest) =~= (before + ps) + rest);
                                }
                            }
                        },
                        Err(e) => {
                            proof {
                                assert(text_pairs(text@, 0) is None);
                                assert(kml_collect(data@, n0, fuel0, in0) == Some(
                                    Err::<Seq<Coordinate>, ()>(()),
                                ));
                            }
                            return Err(e);
                        },
                    }
                }
            },
            XmlPullEvent::EndDocument => {
                proof {
                    assert(coords@ + Seq::<Coordinate>::empty() =~= coords@);
                }
                break;
            },
            XmlPullEvent::Fault => {
                proof {
                    assert(coords@ + Seq::<Coordinate>::empty() =~= coords@);
                }
                break;
            },
            XmlPullEvent::Other => (),
        }
    }
    let result = kml_from_coordinates(coords);
    proof {
        if result is Ok {
            let m = result->Ok_0;
            lemma_seq_min_max(lons(coords@));
            lemma_seq_min_max(lats(coords@));
            assert(lons(coords@)[0] == coords@[0].0);
        }
    }
    result
}

} // verus!
