use vstd::prelude::*;

use crate::decimal::{dec_units, parse_decimal};
use crate::kml::{
    bbox_in_bounds, coords_label, get_boundaries, lats, lemma_seq_min_max, lons, seq_max, seq_min,
};
use crate::spatial::Coordinate;
use crate::util::string_from_utf8;
use json_event_parser::JsonEvent;
use vstd::utf8::{decode_utf8, valid_utf8};

verus! {

/// Errors of the GeoJSON reader.
#[derive(Debug, PartialEq)]
pub enum GeoJSONErrorState {
    InvalidJSON(String),
    UnparsableCoordinate(String),
    UnexpectedFormat(String),
    NotEnoughGeoData,
}

/// A GeoJSON source file.
#[derive(Debug, Clone)]
pub struct GEOJSONMap {
    pub path: String,
}

/// A GeoJSON footprint: the bounding box of every coordinate leaf.
#[derive(Debug, Clone, Copy, PartialEq)]
pub struct GeoJSONRegion {
    pub top_right: Coordinate,
    pub bottom_left: Coordinate,
}

/// A parsed GeoJSON file.
#[derive(Debug, Clone, PartialEq)]
pub struct GeoJSONMetaData {
    pub region: GeoJSONRegion,
    pub tags: Vec<(String, String)>,
}

/// The tag list every GeoJSON result carries.
pub open spec fn geojson_tags_ok(tags: Seq<(String, String)>) -> bool {
    tags.len() == 1 && tags[0].0@ == "Filetype"@ && tags[0].1@ == "GEOJSON"@
}

/// Build the metadata of a GeoJSON file from its collected coordinate
/// pairs: their bounding box, `NotEnoughGeoData` when the file yielded
/// none, and a rejection when a coordinate lies outside the WGS-84
/// ranges - every region the reader exposes is a well-formed rectangle
/// in range.
pub fn geojson_from_coordinates(coordinates: Vec<Coordinate>) -> (r: Result<
    GeoJSONMetaData,
    GeoJSONErrorState,
>)
    ensures
        coordinates@.len() == 0 ==> r == Err::<GeoJSONMetaData, GeoJSONErrorState>(
            GeoJSONErrorState::NotEnoughGeoData,
        ),
        coordinates@.len() > 0 && !bbox_in_bounds(coordinates@) ==> (r matches Err(
            GeoJSONErrorState::UnexpectedFormat(_),
        )),
        coordinates@.len() > 0 && bbox_in_bounds(coordinates@) ==> (r matches Ok(m)
            && m.region.bottom_left == (seq_min(lons(coordinates@)), seq_min(lats(coordinates@)))
            && m.region.top_right == (seq_max(lons(coordinates@)), seq_max(lats(coordinates@)))
            && geojson_tags_ok(m.tags@)),
{
    if coordinates.len() == 0 {
        return Err(GeoJSONErrorState::NotEnoughGeoData);
    }
    let mut tags: Vec<(String, String)> = Vec::new();
    tags.push((String::from_str("Filetype"), String::from_str("GEOJSON")));
    let (bottom_left, top_right) = get_boundaries(coordinates);
    let sc = crate::COORD_SCALE;
    if !(-180 * sc <= bottom_left.0 && top_right.0 <= 180 * sc && -90 * sc <= bottom_left.1
        && top_right.1 <= 90 * sc) {
        return Err(
            GeoJSONErrorState::UnexpectedFormat(
                String::from_str("a coordinate lies outside the WGS-84 ranges"),
            ),
        );
    }
    Ok(GeoJSONMetaData { region: GeoJSONRegion { bottom_left, top_right }, tags })
}

/// One pulled JSON event, reduced to what the reader consumes: a key's
/// or a number's text as its UTF-8 bytes, the structural tokens, other
/// scalars collapsed, the end of input, and a tokenizer fault with its
/// message.
#[derive(Debug, Clone, PartialEq)]
pub enum JsonPullEvent {
    StartArray,
    EndArray,
    StartObject,
    EndObject,
    ObjectKey(Vec<u8>),
    Number(Vec<u8>),
    Scalar,
    Eof,
    Fault(String),
}

/// The `n`-th event of the JSON event stream of a byte sequence.  The
/// pull parser reads nothing but the bytes it was built over, so the
/// stream is a function of the bytes and the position alone.
pub uninterp spec fn json_event_at(bytes: Seq<u8>, n: int) -> JsonPullEvent;

/// The opaque pull parser; its lifetime-carrying internals stay
/// hidden, paired below with the facts its pump is keyed to.
#[verifier::external_body]
struct JsonPullInner<'a> {
    parser: json_event_parser::SliceJsonParser<'a>,
}

/// A pull parser over the bytes of a GeoJSON document: the opaque
/// parser, the bytes it was built over, and how many events were
/// pulled.
pub struct JsonEventSource<'a> {
    inner: JsonPullInner<'a>,
    data: &'a [u8],
    consumed: u64,
}

/// Relies on json_event_parser::SliceJsonParser::new to build a pull
/// parser over the bytes, positioned before the first event.
#[verifier::external_body]
fn json_events_new<'a>(bytes: &'a [u8]) -> (src: JsonEventSource<'a>)
    ensures
        src.data@ == bytes@,
        src.consumed == 0,
{
    JsonEventSource {
        inner: JsonPullInner { parser: json_event_parser::SliceJsonParser::new(bytes) },
        data: bytes,
        consumed: 0,
    }
}

/// Relies on json_event_parser::SliceJsonParser::parse_next: the
/// parser pulls the events of its bytes in order, so the result is the
/// stream's event at the count pulled so far.  A key's or a number's
/// text moves out as its bytes.
#[verifier::external_body]
fn json_events_next(src: &mut JsonEventSource) -> (e: JsonPullEvent)
    requires
        old(src).consumed < u64::MAX,
    ensures
        final(src).data@ == old(src).data@,
        final(src).consumed == old(src).consumed + 1,
        e == json_event_at(old(src).data@, old(src).consumed as int),
{
    src.consumed = src.consumed + 1;
    match src.inner.parser.parse_next() {
        Ok(JsonEvent::StartArray) => JsonPullEvent::StartArray,
        Ok(JsonEvent::EndArray) => JsonPullEvent::EndArray,
        Ok(JsonEvent::StartObject) => JsonPullEvent::StartObject,
        Ok(JsonEvent::EndObject) => JsonPullEvent::EndObject,
        Ok(JsonEvent::ObjectKey(k)) => JsonPullEvent::ObjectKey(k.into_owned().into_bytes()),
        Ok(JsonEvent::Number(n)) => JsonPullEvent::Number(n.into_owned().into_bytes()),
        Ok(JsonEvent::Eof) => JsonPullEvent::Eof,
        Ok(_) => JsonPullEvent::Scalar,
        Err(e) => JsonPullEvent::Fault(e.message().to_string()),
    }
}

fn bytes_eq(a: &[u8], b: &[u8]) -> (r: bool)
    ensures
        r == (a@ == b@),
{
    if a.len() != b.len() {
        proof {
            assert(a@.len() != b@.len());
        }
        return false;
    }
    let mut i: usize = 0;
    while i < a.len()
        invariant
            i <= a@.len(),
            a@.len() == b@.len(),
            forall|j: int| 0 <= j < i ==> a@[j] == b@[j],
        decreases a@.len() - i,
    {
        if a[i] != b[i] {
            return false;
        }
        i = i + 1;
    }
    proof {
        assert(a@ =~= b@);
    }
    true
}

/// How many events the reader inspects at most.
pub open spec fn gj_fuel(b: Seq<u8>) -> nat {
    if b.len() > 0x1000_0000_0000_0000 {
        0xFFFF_FFFF_FFFF_FFFF
    } else {
        (2 * b.len() + 64) as nat
    }
}

/// The coordinates the event stream denotes from event `n` on, given
/// the capture state the reader carries: whether a `coordinates` value
/// is being captured, the array nesting depth, how many numbers of the
/// current leaf were seen, and the two captured numbers.  `Err(None)`
/// stands for a tokenizer fault or an overrun counter, answered as
/// malformed JSON; `Err(Some(tok))` for a number token outside the
/// decimal grammar; a stream outliving the fuel yields nothing.
pub open spec fn gj_collect(
    b: Seq<u8>,
    n: int,
    fuel: nat,
    cap: bool,
    depth: int,
    dims: int,
    lon: i64,
    lat: i64,
) -> Option<Result<Seq<Coordinate>, Option<Seq<u8>>>>
    decreases fuel,
{
    if fuel == 0 {
        None
    } else {
        match json_event_at(b, n) {
            JsonPullEvent::Eof => Some(Ok(Seq::empty())),
            JsonPullEvent::Fault(_) => Some(Err(None)),
            JsonPullEvent::ObjectKey(k) => if !cap && k@ == coords_label() {
                gj_collect(b, n + 1, (fuel - 1) as nat, true, 0, 0, lon, lat)
            } else if cap && depth == 0 {
                gj_collect(b, n + 1, (fuel - 1) as nat, false, depth, dims, lon, lat)
            } else {
                gj_collect(b, n + 1, (fuel - 1) as nat, cap, depth, dims, lon, lat)
            },
            JsonPullEvent::StartArray => if cap {
                if depth == 0xFFFF_FFFF_FFFF_FFFF {
                    Some(Err(None))
                } else {
                    gj_collect(b, n + 1, (fuel - 1) as nat, cap, depth + 1, dims, lon, lat)
                }
            } else {
                gj_collect(b, n + 1, (fuel - 1) as nat, cap, depth, dims, lon, lat)
            },
            JsonPullEvent::EndArray => if cap {
                let d2 = if depth > 0 {
                    depth - 1
                } else {
                    0
                };
                let cap2 = if d2 == 0 {
                    false
                } else {
                    cap
                };
                match gj_collect(b, n + 1, (fuel - 1) as nat, cap2, d2, 0, lon, lat) {
                    None => None,
                    Some(Err(x)) => Some(Err(x)),
                    Some(Ok(rest)) => Some(
                        Ok(
                            if dims != 0 {
                                seq![(lon, lat)] + rest
                            } else {
                                rest
                            },
                        ),
                    ),
                }
            } else {
                gj_collect(b, n + 1, (fuel - 1) as nat, cap, depth, dims, lon, lat)
            },
            JsonPullEvent::Number(tok) => if cap {
                if dims < 2 {
                    match dec_units(tok@) {
                        None => Some(Err(Some(tok@))),
                        Some(v) => {
                            let lon2 = if dims == 0 {
                                v
                            } else {
                                lon
                            };
                            let lat2 = if dims == 1 {
                                v
                            } else {
                                lat
                            };
                            let cap2 = if depth == 0 {
                                false
                            } else {
                                cap
                            };
                            gj_collect(b, n + 1, (fuel - 1) as nat, cap2, depth, dims + 1, lon2, lat2)
                        },
                    }
                } else if dims == 0xFFFF_FFFF_FFFF_FFFF {
                    Some(Err(None))
                } else {
                    let cap2 = if depth == 0 {
                        false
                    } else {
                        cap
                    };
                    gj_collect(b, n + 1, (fuel - 1) as nat, cap2, depth, dims + 1, lon, lat)
                }
            } else {
                gj_collect(b, n + 1, (fuel - 1) as nat, cap, depth, dims, lon, lat)
            },
            JsonPullEvent::Scalar => if cap && depth == 0 {
                gj_collect(b, n + 1, (fuel - 1) as nat, false, depth, dims, lon, lat)
            } else {
                gj_collect(b, n + 1, (fuel - 1) as nat, cap, depth, dims, lon, lat)
            },
            JsonPullEvent::StartObject => if cap && depth == 0 {
                gj_collect(b, n + 1, (fuel - 1) as nat, false, depth, dims, lon, lat)
            } else {
                gj_collect(b, n + 1, (fuel - 1) as nat, cap, depth, dims, lon, lat)
            },
            JsonPullEvent::EndObject => if cap && depth == 0 {
                gj_collect(b, n + 1, (fuel - 1) as nat, false, depth, dims, lon, lat)
            } else {
                gj_collect(b, n + 1, (fuel - 1) as nat, cap, depth, dims, lon, lat)
            },
        }
    }
}

/// Parse a GeoJSON file: stream its JSON events; after each object key
/// named `coordinates`, track the array nesting of the key's value and
/// collect the first two numbers of each innermost array as a
/// longitude/latitude pair.  The result is exactly what the
/// event-stream scan `gj_collect` denotes: the collected pairs' box,
/// or `NotEnoughGeoData` for none, a malformed-JSON report, or the
/// first number token outside the decimal grammar.
#[verifier::rlimit(100)]
#[verifier::spinoff_prover]
pub fn parse_geojson(data: &[u8]) -> (r: Result<GeoJSONMetaData, GeoJSONErrorState>)
    ensures
        r matches Ok(m) ==> m.region.bottom_left.0 <= m.region.top_right.0
            && m.region.bottom_left.1 <= m.region.top_right.1 && geojson_tags_ok(m.tags@),
        gj_collect(data@, 0, gj_fuel(data@), false, 0, 0, 0, 0) matches Some(Ok(cs)) ==> (if cs.len()
            == 0 {
            r == Err::<GeoJSONMetaData, GeoJSONErrorState>(GeoJSONErrorState::NotEnoughGeoData)
        } else if !bbox_in_bounds(cs) {
            r matches Err(GeoJSONErrorState::UnexpectedFormat(_))
        } else {
            r matches Ok(m) && m.region.bottom_left == (seq_min(lons(cs)), seq_min(lats(cs)))
                && m.region.top_right == (seq_max(lons(cs)), seq_max(lats(cs)))
                && geojson_tags_ok(m.tags@)
        }),
        gj_collect(data@, 0, gj_fuel(data@), false, 0, 0, 0, 0) matches Some(Err(t)) ==> (match t {
            None => r matches Err(GeoJSONErrorState::InvalidJSON(_)),
            Some(tok) => if valid_utf8(tok) {
                r matches Err(GeoJSONErrorState::UnparsableCoordinate(s)) && s@ == decode_utf8(tok)
            } else {
                r matches Err(GeoJSONErrorState::InvalidJSON(_))
            },
        }),
        gj_collect(data@, 0, gj_fuel(data@), false, 0, 0, 0, 0) is None ==> (r matches Err(
            GeoJSONErrorState::InvalidJSON(_),
        )),
{
    let mut src = json_events_new(data);
    let mut coords: Vec<Coordinate> = Vec::new();
    let mut capturing: bool = false;
    let mut depth: u64 = 0;
    let mut dims: u64 = 0;
    let mut lon: i64 = 0;
    let mut lat: i64 = 0;
    let label = crate::kml::coords_label_vec();
    let dl = data.len() as u64;
    let mut fuel: u64 = if dl > 0x1000_0000_0000_0000 {
        0xFFFF_FFFF_FFFF_FFFF
    } else {
        2 * dl + 64
    };
    proof {
        assert(fuel as nat == gj_fuel(data@));
    }
    loop
        invariant_except_break
            gj_collect(
                data@,
                src.consumed as int,
                fuel as nat,
                capturing,
                depth as int,
                dims as int,
                lon,
                lat,
            ) matches Some(Ok(rest)) ==> (gj_collect(data@, 0, gj_fuel(data@), false, 0, 0, 0, 0)
                matches Some(Ok(all)) && all == coords@ + rest),
            gj_collect(
                data@,
                src.consumed as int,
                fuel as nat,
                capturing,
                depth as int,
                dims as int,
                lon,
                lat,
            ) matches Some(Err(t)) ==> (gj_collect(data@, 0, gj_fuel(data@), false, 0, 0, 0, 0)
                matches Some(Err(t2)) && t == t2),
            gj_collect(
                data@,
                src.consumed as int,
                fuel as nat,
                capturing,
                depth as int,
                dims as int,
                lon,
                lat,
            ) is None ==> gj_collect(data@, 0, gj_fuel(data@), false, 0, 0, 0, 0) is None,
        invariant
            src.data@ == data@,
            label@ == coords_label(),
            fuel as nat + src.consumed as nat == gj_fuel(data@),
        ensures
            gj_collect(data@, 0, gj_fuel(data@), false, 0, 0, 0, 0) matches Some(Ok(all)) && all
                == coords@,
        decreases fuel,
    {
        if fuel == 0 {
            return Err(
                GeoJSONErrorState::InvalidJSON(
                    String::from_str("the event stream did not end"),
                ),
            );
        }
        let ghost n0 = src.consumed as int;
        let ghost fuel0 = fuel as nat;
        let ghost st = (capturing, depth as int, dims as int, lon, lat);
        let e = json_events_next(&mut src);
        fuel = fuel - 1;
        proof {
            assert(e == json_event_at(data@, n0));
            assert(gj_collect(data@, n0, fuel0, st.0, st.1, st.2, st.3, st.4) is Some
                || gj_collect(data@, n0, fuel0, st.0, st.1, st.2, st.3, st.4) is None);
        }
        match e {
            JsonPullEvent::ObjectKey(k) => {
                if !capturing && bytes_eq(k.as_slice(), label.as_slice()) {
                    capturing = true;
                    depth = 0;
                    dims = 0;
                } else if capturing && depth == 0 {
                    capturing = false;
                }
            },
            JsonPullEvent::StartArray => {
                if capturing {
                    if depth == 0xFFFF_FFFF_FFFF_FFFF {
                        return Err(
                            GeoJSONErrorState::InvalidJSON(
                                String::from_str("array nesting too deep"),
                            ),
                        );
                    }
                    depth = depth + 1;
                }
            },
            JsonPullEvent::EndArray => {
                if capturing {
                    if depth > 0 {
                        depth = depth - 1;
                    }
                    let ghost before = coords@;
                    if dims != 0 {
                        coords.push((lon, lat));
                        proof {
                            assert(coords@ =~= before + seq![(lon, lat)]);
                        }
                    }
                    dims = 0;
                    if depth == 0 {
                        capturing = false;
                    }
                    proof {
                        if gj_collect(
                            data@,
                            n0 + 1,
                            (fuel0 - 1) as nat,
                            capturing,
                            depth as int,
                            0,
                            lon,
                            lat,
                        ) is Some && gj_collect(
                            data@,
                            n0 + 1,
                            (fuel0 - 1) as nat,
                            capturing,
                            depth as int,
                            0,
                            lon,
                            lat,
                        )->Some_0 is Ok {
                            let rest = gj_collect(
                                data@,
                                n0 + 1,
                                (fuel0 - 1) as nat,
                                capturing,
                                depth as int,
                                0,
                                lon,
                                lat,
                            )->Some_0->Ok_0;
                            if st.2 != 0 {
                                assert(before + (seq![(lon, lat)] + rest) =~= (before + seq![
                                    (lon, lat),
                                ]) + rest);
                            }
                        }
                    }
                }
            },
            JsonPullEvent::Number(text) => {
                if capturing {
                    if dims < 2 {
                        let v = match parse_decimal(text.as_slice()) {
                            Some(v) => v,
                            None => {
                                match string_from_utf8(text) {
                                    Some(s) => {
                                        return Err(GeoJSONErrorState::UnparsableCoordinate(s));
                                    },
                                    None => {
                                        return Err(
                                            GeoJSONErrorState::InvalidJSON(
                                                String::from_str("a number token is not text"),
                                            ),
                                        );
                                    },
                                }
                            },
                        };
                        if dims == 0 {
                            lon = v;
                        } else {
                            lat = v;
                        }
                        dims = dims + 1;
                        if depth == 0 {
                            capturing = false;
                        }
                    } else if dims == 0xFFFF_FFFF_FFFF_FFFF {
                        return Err(
                            GeoJSONErrorState::InvalidJSON(
                                String::from_str("coordinate leaf too wide"),
                            ),
                        );
                    } else {
                        dims = dims + 1;
                        if depth == 0 {
                            capturing = false;
                        }
                    }
                }
            },
            JsonPullEvent::Scalar => {
                if capturing && depth == 0 {
                    capturing = false;
                }
            },
            JsonPullEvent::StartObject => {
                if capturing && depth == 0 {
                    capturing = false;
                }
            },
            JsonPullEvent::EndObject => {
                if capturing && depth == 0 {
                    capturing = false;
                }
            },
            JsonPullEvent::Eof => {
                proof {
                    assert(coords@ + Seq::<Coordinate>::empty() =~= coords@);
                }
                break;
            },
            JsonPullEvent::Fault(msg) => {
                return Err(GeoJSONErrorState::InvalidJSON(msg));
            },
        }
    }
    let result = geojson_from_coordinates(coords);
    proof {
        if result is Ok {
            lemma_seq_min_max(lons(coords@));
            lemma_seq_min_max(lats(coords@));
            assert(lons(coords@)[0] == coords@[0].0);
        }
    }
    result
}

} // verus!
