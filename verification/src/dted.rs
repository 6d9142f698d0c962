use vstd::prelude::*;
use vstd::slice::slice_subrange;

use crate::spatial::{coordinate_in_bounds, Coordinate};

verus! {

/// Fixed-point coordinate units per arc-second: `COORD_SCALE / 3600`.
pub const ARCSEC_UNITS: i64 = 25_000;

/// Top-level error of the DTED reader.
#[derive(Debug)]
pub enum DT2ErrorState {
    UnexpectedFormat(String),
    UHLError(UHLErrorState),
    DSIError(DSIErrorState),
}

/// Errors of the 80-byte User Header Label block.
#[derive(Debug)]
pub enum UHLErrorState {
    InvalidLength(usize),
    InvalidSentinel([u8; 4]),
    InvalidDDMMSSH([u8; 8]),
}

/// Errors of the 648-byte Data Set Identification block.
#[derive(Debug)]
pub enum DSIErrorState {
    InvalidLength(usize),
    InvalidSentinel([u8; 4]),
    InvalidDDMMSSH([u8; 7]),
    InvalidDDDMMSSH([u8; 8]),
}

/// A DTED source file.
#[derive(Debug, Clone)]
pub struct DTEDMap {
    pub path: String,
}

pub open spec fn is_ascii_digit(b: u8) -> bool {
    48 <= b <= 57
}

pub open spec fn digit(b: u8) -> int {
    b - 48
}

/// The two-digit decimal number starting at position `i`.
pub open spec fn two_digits(b: Seq<u8>, i: int) -> int {
    10 * digit(b[i]) + digit(b[i + 1])
}

/// The three-digit decimal number starting at position `i`.
pub open spec fn three_digits(b: Seq<u8>, i: int) -> int {
    100 * digit(b[i]) + 10 * digit(b[i + 1]) + digit(b[i + 2])
}

/// An ASCII hemisphere letter: N, S, E or W.
pub open spec fn hemisphere_ok(b: u8) -> bool {
    b == 78 || b == 83 || b == 69 || b == 87
}

/// South and west are the negative hemispheres.
pub open spec fn hemisphere_sign(b: u8) -> int {
    if b == 83 || b == 87 {
        -1
    } else {
        1
    }
}

/// A seven-byte `DDMMSSH` field: six digits and a hemisphere letter.
pub open spec fn ddmmssh_valid(b: Seq<u8>) -> bool {
    &&& b.len() == 7
    &&& forall|i: int| 0 <= i < 6 ==> is_ascii_digit(b[i])
    &&& hemisphere_ok(b[6])
}

/// The decoded value of a valid `DDMMSSH` field in coordinate units:
/// `sign * (degrees + minutes/60 + seconds/3600)` degrees.
pub open spec fn ddmmssh_units(b: Seq<u8>) -> int {
    hemisphere_sign(b[6]) * (3600 * two_digits(b, 0) + 60 * two_digits(b, 2) + two_digits(b, 4))
        * ARCSEC_UNITS
}

/// An eight-byte `DDDMMSSH` field: three degree digits, then as `DDMMSSH`.
pub open spec fn dddmmssh_valid(b: Seq<u8>) -> bool {
    &&& b.len() == 8
    &&& forall|i: int| 0 <= i < 7 ==> is_ascii_digit(b[i])
    &&& hemisphere_ok(b[7])
}

/// The decoded value of a valid `DDDMMSSH` field in coordinate units.
pub open spec fn dddmmssh_units(b: Seq<u8>) -> int {
    hemisphere_sign(b[7]) * (3600 * three_digits(b, 0) + 60 * two_digits(b, 3) + two_digits(b, 5))
        * ARCSEC_UNITS
}

fn copy4(data: &[u8]) -> (a: [u8; 4])
    requires
        data@.len() >= 4,
    ensures
        a@ == data@.subrange(0, 4),
{
    let mut a: [u8; 4] = [0; 4];
    let mut i: usize = 0;
    while i < 4
        invariant
            i <= 4,
            data@.len() >= 4,
            forall|j: int| 0 <= j < i ==> a@[j] == data@[j],
        decreases 4 - i,
    {
        a[i] = data[i];
        i = i + 1;
    }
    proof {
        assert(a@ =~= data@.subrange(0, 4));
    }
    a
}

fn copy7(data: &[u8]) -> (a: [u8; 7])
    requires
        data@.len() == 7,
    ensures
        a@ == data@,
{
    let mut a: [u8; 7] = [0; 7];
    let mut i: usize = 0;
    while i < 7
        invariant
            i <= 7,
            data@.len() == 7,
            forall|j: int| 0 <= j < i ==> a@[j] == data@[j],
        decreases 7 - i,
    {
        a[i] = data[i];
        i = i + 1;
    }
    proof {
        assert(a@ =~= data@);
    }
    a
}

fn copy8(data: &[u8]) -> (a: [u8; 8])
    requires
        data@.len() == 8,
    ensures
        a@ == data@,
{
    let mut a: [u8; 8] = [0; 8];
    let mut i: usize = 0;
    while i < 8
        invariant
            i <= 8,
            data@.len() == 8,
            forall|j: int| 0 <= j < i ==> a@[j] == data@[j],
        decreases 8 - i,
    {
        a[i] = data[i];
        i = i + 1;
    }
    proof {
        assert(a@ =~= data@);
    }
    a
}

/// Decode a seven-byte `DDMMSSH` latitude field to coordinate units.
pub fn parse_ddmmssh(data: &[u8]) -> (r: Result<i64, DT2ErrorState>)
    ensures
        ddmmssh_valid(data@) ==> r == Ok::<i64, DT2ErrorState>(ddmmssh_units(data@) as i64),
        data@.len() != 7 ==> r == Err::<i64, DT2ErrorState>(
            DT2ErrorState::DSIError(DSIErrorState::InvalidLength(data@.len() as usize)),
        ),
        data@.len() == 7 && !ddmmssh_valid(data@) ==> (r matches Err(
            DT2ErrorState::DSIError(DSIErrorState::InvalidDDMMSSH(a)),
        ) && a@ == data@),
{
    if data.len() != 7 {
        return Err(DT2ErrorState::DSIError(DSIErrorState::InvalidLength(data.len())));
    }
    let mut digits_ok = true;
    let mut i: usize = 0;
    while i < 6
        invariant
            i <= 6,
            data@.len() == 7,
            digits_ok == forall|j: int| 0 <= j < i ==> is_ascii_digit(data@[j]),
        decreases 6 - i,
    {
        if !(48 <= data[i] && data[i] <= 57) {
            digits_ok = false;
        }
        i = i + 1;
    }
    let h = data[6];
    if !digits_ok || !(h == 78 || h == 83 || h == 69 || h == 87) {
        return Err(DT2ErrorState::DSIError(DSIErrorState::InvalidDDMMSSH(copy7(data))));
    }
    let deg: i64 = 10 * ((data[0] - 48) as i64) + ((data[1] - 48) as i64);
    let min: i64 = 10 * ((data[2] - 48) as i64) + ((data[3] - 48) as i64);
    let sec: i64 = 10 * ((data[4] - 48) as i64) + ((data[5] - 48) as i64);
    let sign: i64 = if h == 83 || h == 87 {
        -1
    } else {
        1
    };
    Ok(sign * (3600 * deg + 60 * min + sec) * ARCSEC_UNITS)
}

/// Decode an eight-byte `DDDMMSSH` longitude field to coordinate units.
pub fn parse_dddmmssh(data: &[u8]) -> (r: Result<i64, DT2ErrorState>)
    ensures
        dddmmssh_valid(data@) ==> r == Ok::<i64, DT2ErrorState>(dddmmssh_units(data@) as i64),
        data@.len() != 8 ==> r == Err::<i64, DT2ErrorState>(
            DT2ErrorState::DSIError(DSIErrorState::InvalidLength(data@.len() as usize)),
        ),
        data@.len() == 8 && !dddmmssh_valid(data@) ==> (r matches Err(
            DT2ErrorState::DSIError(DSIErrorState::InvalidDDDMMSSH(a)),
        ) && a@ == data@),
{
    if data.len() != 8 {
        return Err(DT2ErrorState::DSIError(DSIErrorState::InvalidLength(data.len())));
    }
    let mut digits_ok = true;
    let mut i: usize = 0;
    while i < 7
        invariant
            i <= 7,
            data@.len() == 8,
            digits_ok == forall|j: int| 0 <= j < i ==> is_ascii_digit(data@[j]),
        decreases 7 - i,
    {
        if !(48 <= data[i] && data[i] <= 57) {
            digits_ok = false;
        }
        i = i + 1;
    }
    let h = data[7];
    if !digits_ok || !(h == 78 || h == 83 || h == 69 || h == 87) {
        return Err(DT2ErrorState::DSIError(DSIErrorState::InvalidDDDMMSSH(copy8(data))));
    }
    let deg: i64 = 100 * ((data[0] - 48) as i64) + 10 * ((data[1] - 48) as i64) + ((data[2]
        - 48) as i64);
    let min: i64 = 10 * ((data[3] - 48) as i64) + ((data[4] - 48) as i64);
    let sec: i64 = 10 * ((data[5] - 48) as i64) + ((data[6] - 48) as i64);
    let sign: i64 = if h == 83 || h == 87 {
        -1
    } else {
        1
    };
    Ok(sign * (3600 * deg + 60 * min + sec) * ARCSEC_UNITS)
}

/// The four bytes `UHL1`.
pub open spec fn uhl_sentinel_ok(b: Seq<u8>) -> bool {
    b[0] == 85 && b[1] == 72 && b[2] == 76 && b[3] == 49
}

/// A well-formed 80-byte User Header Label: the sentinel, then the
/// origin longitude and latitude as `DDDMMSSH` fields at 4..12 and
/// 12..20.
pub open spec fn uhl_valid(b: Seq<u8>) -> bool {
    b.len() == 80 && uhl_sentinel_ok(b) && dddmmssh_valid(b.subrange(4, 12)) && dddmmssh_valid(
        b.subrange(12, 20),
    )
}

/// Which error the User Header Label reader reports for an invalid
/// block: wrong length, then sentinel, then origin longitude, then
/// origin latitude.
pub open spec fn uhl_error_for(e: DT2ErrorState, b: Seq<u8>) -> bool {
    if b.len() != 80 {
        e == DT2ErrorState::UHLError(UHLErrorState::InvalidLength(b.len() as usize))
    } else if !uhl_sentinel_ok(b) {
        e matches DT2ErrorState::UHLError(UHLErrorState::InvalidSentinel(a)) && a@ == b.subrange(
            0,
            4,
        )
    } else if !dddmmssh_valid(b.subrange(4, 12)) {
        e matches DT2ErrorState::UHLError(UHLErrorState::InvalidDDMMSSH(a)) && a@ == b.subrange(
            4,
            12,
        )
    } else {
        e matches DT2ErrorState::UHLError(UHLErrorState::InvalidDDMMSSH(a)) && a@ == b.subrange(
            12,
            20,
        )
    }
}

/// The 80-byte User Header Label; only the origin, as
/// `(latitude, longitude)`, is kept.
#[derive(Debug, Clone, Copy, PartialEq)]
pub struct UserHeaderLabel {
    pub origin: (i64, i64),
}

impl UserHeaderLabel {
    /// Parse the 80-byte User Header Label block.
    pub fn from_bytes(buffer: &[u8]) -> (r: Result<UserHeaderLabel, DT2ErrorState>)
        ensures
            uhl_valid(buffer@) ==> r == Ok::<UserHeaderLabel, DT2ErrorState>(
                UserHeaderLabel {
                    origin: (
                        dddmmssh_units(buffer@.subrange(12, 20)) as i64,
                        dddmmssh_units(buffer@.subrange(4, 12)) as i64,
                    ),
                },
            ),
            !uhl_valid(buffer@) ==> (r matches Err(e) && uhl_error_for(e, buffer@)),
    {
        if buffer.len() != 80 {
            return Err(DT2ErrorState::UHLError(UHLErrorState::InvalidLength(buffer.len())));
        }
        if !(buffer[0] == 85 && buffer[1] == 72 && buffer[2] == 76 && buffer[3] == 49) {
            return Err(
                DT2ErrorState::UHLError(UHLErrorState::InvalidSentinel(copy4(buffer))),
            );
        }
        let longitude_str = slice_subrange(buffer, 4, 12);
        let longitude = match parse_dddmmssh(longitude_str) {
            Ok(v) => v,
            Err(_) => {
                return Err(
                    DT2ErrorState::UHLError(UHLErrorState::InvalidDDMMSSH(copy8(longitude_str))),
                );
            },
        };
        let latitude_str = slice_subrange(buffer, 12, 20);
        let latitude = match parse_dddmmssh(latitude_str) {
            Ok(v) => v,
            Err(_) => {
                return Err(
                    DT2ErrorState::UHLError(UHLErrorState::InvalidDDMMSSH(copy8(latitude_str))),
                );
            },
        };
        Ok(UserHeaderLabel { origin: (latitude, longitude) })
    }
}

/// The four bytes `DSIU`.
pub open spec fn dsi_sentinel_ok(b: Seq<u8>) -> bool {
    b[0] == 68 && b[1] == 83 && b[2] == 73 && b[3] == 85
}

/// The seven-byte latitude field at `off`.
pub open spec fn dsi_lat(b: Seq<u8>, off: int) -> Seq<u8> {
    b.subrange(off, off + 7)
}

/// The eight-byte longitude field at `off`.
pub open spec fn dsi_lon(b: Seq<u8>, off: int) -> Seq<u8> {
    b.subrange(off, off + 8)
}

/// All four corners of the Data Set Identification block decode: in
/// file order, the south-west, north-west, north-east and south-east
/// corner, each a latitude then a longitude.
pub open spec fn dsi_fields_valid(b: Seq<u8>) -> bool {
    &&& ddmmssh_valid(dsi_lat(b, 204))
    &&& dddmmssh_valid(dsi_lon(b, 211))
    &&& ddmmssh_valid(dsi_lat(b, 219))
    &&& dddmmssh_valid(dsi_lon(b, 226))
    &&& ddmmssh_valid(dsi_lat(b, 234))
    &&& dddmmssh_valid(dsi_lon(b, 241))
    &&& ddmmssh_valid(dsi_lat(b, 249))
    &&& dddmmssh_valid(dsi_lon(b, 256))
}

/// A well-formed 648-byte Data Set Identification block.
pub open spec fn dsi_valid(b: Seq<u8>) -> bool {
    b.len() == 648 && dsi_sentinel_ok(b) && dsi_fields_valid(b)
}

/// The corner whose latitude field is at `lat_off` and longitude field
/// at `lon_off`, as a `(longitude, latitude)` coordinate.
pub open spec fn dsi_corner(b: Seq<u8>, lat_off: int, lon_off: int) -> Coordinate {
    (dddmmssh_units(dsi_lon(b, lon_off)) as i64, ddmmssh_units(dsi_lat(b, lat_off)) as i64)
}

/// Which error the Data Set Identification reader reports for an
/// invalid block: length, then sentinel, then the corner fields in file
/// order.  An unreadable latitude carries its seven bytes; an
/// unreadable longitude carries its eight bytes under the header-label
/// error family, as the original file layouts share that shape.
pub open spec fn dsi_error_for(e: DT2ErrorState, b: Seq<u8>) -> bool {
    if b.len() != 648 {
        e == DT2ErrorState::DSIError(DSIErrorState::InvalidLength(b.len() as usize))
    } else if !dsi_sentinel_ok(b) {
        e matches DT2ErrorState::DSIError(DSIErrorState::InvalidSentinel(a)) && a@ == b.subrange(
            0,
            4,
        )
    } else if !ddmmssh_valid(dsi_lat(b, 204)) {
        e matches DT2ErrorState::DSIError(DSIErrorState::InvalidDDMMSSH(a)) && a@ == dsi_lat(b, 204)
    } else if !dddmmssh_valid(dsi_lon(b, 211)) {
        e matches DT2ErrorState::UHLError(UHLErrorState::InvalidDDMMSSH(a)) && a@ == dsi_lon(b, 211)
    } else if !ddmmssh_valid(dsi_lat(b, 219)) {
        e matches DT2ErrorState::DSIError(DSIErrorState::InvalidDDMMSSH(a)) && a@ == dsi_lat(b, 219)
    } else if !dddmmssh_valid(dsi_lon(b, 226)) {
        e matches DT2ErrorState::UHLError(UHLErrorState::InvalidDDMMSSH(a)) && a@ == dsi_lon(b, 226)
    } else if !ddmmssh_valid(dsi_lat(b, 234)) {
        e matches DT2ErrorState::DSIError(DSIErrorState::InvalidDDMMSSH(a)) && a@ == dsi_lat(b, 234)
    } else if !dddmmssh_valid(dsi_lon(b, 241)) {
        e matches DT2ErrorState::UHLError(UHLErrorState::InvalidDDMMSSH(a)) && a@ == dsi_lon(b, 241)
    } else if !ddmmssh_valid(dsi_lat(b, 249)) {
        e matches DT2ErrorState::DSIError(DSIErrorState::InvalidDDMMSSH(a)) && a@ == dsi_lat(b, 249)
    } else {
        e matches DT2ErrorState::UHLError(UHLErrorState::InvalidDDMMSSH(a)) && a@ == dsi_lon(b, 256)
    }
}

/// The four corners of the Data Set Identification block.
#[derive(Debug, Clone, Copy, PartialEq)]
pub struct DataSetIdentification {
    pub sw_corner: Coordinate,
    pub ne_corner: Coordinate,
    pub nw_corner: Coordinate,
    pub se_corner: Coordinate,
}

fn dsi_lat_field(data: &[u8], off: usize) -> (r: Result<i64, DT2ErrorState>)
    requires
        data@.len() == 648,
        off + 7 <= 648,
    ensures
        ddmmssh_valid(dsi_lat(data@, off as int)) ==> r == Ok::<i64, DT2ErrorState>(
            ddmmssh_units(dsi_lat(data@, off as int)) as i64,
        ),
        !ddmmssh_valid(dsi_lat(data@, off as int)) ==> (r matches Err(
            DT2ErrorState::DSIError(DSIErrorState::InvalidDDMMSSH(a)),
        ) && a@ == dsi_lat(data@, off as int)),
{
    let f = slice_subrange(data, off, off + 7);
    match parse_ddmmssh(f) {
        Ok(v) => Ok(v),
        Err(_) => Err(DT2ErrorState::DSIError(DSIErrorState::InvalidDDMMSSH(copy7(f)))),
    }
}

fn dsi_lon_field(data: &[u8], off: usize) -> (r: Result<i64, DT2ErrorState>)
    requires
        data@.len() == 648,
        off + 8 <= 648,
    ensures
        dddmmssh_valid(dsi_lon(data@, off as int)) ==> r == Ok::<i64, DT2ErrorState>(
            dddmmssh_units(dsi_lon(data@, off as int)) as i64,
        ),
        !dddmmssh_valid(dsi_lon(data@, off as int)) ==> (r matches Err(
            DT2ErrorState::UHLError(UHLErrorState::InvalidDDMMSSH(a)),
        ) && a@ == dsi_lon(data@, off as int)),
{
    let f = slice_subrange(data, off, off + 8);
    match parse_dddmmssh(f) {
        Ok(v) => Ok(v),
        Err(_) => Err(DT2ErrorState::UHLError(UHLErrorState::InvalidDDMMSSH(copy8(f)))),
    }
}

impl DataSetIdentification {
    /// Parse the 648-byte Data Set Identification block and return the
    /// four decoded corners.
    pub fn from_bytes(buffer: &[u8]) -> (r: Result<DataSetIdentification, DT2ErrorState>)
        ensures
            dsi_valid(buffer@) ==> r == Ok::<DataSetIdentification, DT2ErrorState>(
                DataSetIdentification {
                    sw_corner: dsi_corner(buffer@, 204, 211),
                    ne_corner: dsi_corner(buffer@, 234, 241),
                    nw_corner: dsi_corner(buffer@, 219, 226),
                    se_corner: dsi_corner(buffer@, 249, 256),
                },
            ),
            !dsi_valid(buffer@) ==> (r matches Err(e) && dsi_error_for(e, buffer@)),
    {
        if buffer.len() != 648 {
            return Err(DT2ErrorState::DSIError(DSIErrorState::InvalidLength(buffer.len())));
        }
        if !(buffer[0] == 68 && buffer[1] == 83 && buffer[2] == 73 && buffer[3] == 85) {
            return Err(
                DT2ErrorState::DSIError(DSIErrorState::InvalidSentinel(copy4(buffer))),
            );
        }
        let sw_lat = dsi_lat_field(buffer, 204)?;
        let sw_long = dsi_lon_field(buffer, 211)?;
        let nw_lat = dsi_lat_field(buffer, 219)?;
        let nw_long = dsi_lon_field(buffer, 226)?;
        let ne_lat = dsi_lat_field(buffer, 234)?;
        let ne_long = dsi_lon_field(buffer, 241)?;
        let se_lat = dsi_lat_field(buffer, 249)?;
        let se_long = dsi_lon_field(buffer, 256)?;
        Ok(
            DataSetIdentification {
                sw_corner: (sw_long, sw_lat),
                ne_corner: (ne_long, ne_lat),
                nw_corner: (nw_long, nw_lat),
                se_corner: (se_long, se_lat),
            },
        )
    }
}

/// The four corners a DTED file provides, prior to unification.
#[derive(Debug, Clone, Copy, PartialEq)]
pub struct DT2Region {
    pub top_left: Coordinate,
    pub top_right: Coordinate,
    pub bottom_right: Coordinate,
    pub bottom_left: Coordinate,
}

/// A parsed DTED file: its corners and its tags.
#[derive(Debug, Clone, PartialEq)]
pub struct DT2MetaData {
    pub region: DT2Region,
    pub tags: Vec<(String, String)>,
}

/// The tag list every DTED result carries.
pub open spec fn dted_tags_ok(tags: Seq<(String, String)>) -> bool {
    tags.len() == 1 && tags[0].0@ == "Filetype"@ && tags[0].1@ == "DTED"@
}

/// All four corners of a sound block lie within the WGS-84 ranges.
pub open spec fn dsi_corners_in_range(b: Seq<u8>) -> bool {
    &&& coordinate_in_bounds(dsi_corner(b, 204, 211))
    &&& coordinate_in_bounds(dsi_corner(b, 219, 226))
    &&& coordinate_in_bounds(dsi_corner(b, 234, 241))
    &&& coordinate_in_bounds(dsi_corner(b, 249, 256))
}

/// Parse a DTED file: the 80-byte User Header Label, then the 648-byte
/// Data Set Identification block, whose corners form the region.  A
/// corner outside the WGS-84 ranges is rejected; the corners otherwise
/// pass through as the file names them, so the rectangle's ordering
/// follows the file.
pub fn parse_dted(data: &[u8]) -> (r: Result<DT2MetaData, DT2ErrorState>)
    ensures
        data@.len() < 728 ==> (r matches Err(DT2ErrorState::UnexpectedFormat(_))),
        data@.len() >= 728 && !uhl_valid(data@.subrange(0, 80)) ==> (r matches Err(e)
            && uhl_error_for(e, data@.subrange(0, 80))),
        data@.len() >= 728 && uhl_valid(data@.subrange(0, 80)) && !dsi_valid(
            data@.subrange(80, 728),
        ) ==> (r matches Err(e) && dsi_error_for(e, data@.subrange(80, 728))),
        data@.len() >= 728 && uhl_valid(data@.subrange(0, 80)) && dsi_valid(
            data@.subrange(80, 728),
        ) && !dsi_corners_in_range(data@.subrange(80, 728)) ==> (r matches Err(
            DT2ErrorState::UnexpectedFormat(_),
        )),
        data@.len() >= 728 && uhl_valid(data@.subrange(0, 80)) && dsi_valid(
            data@.subrange(80, 728),
        ) && dsi_corners_in_range(data@.subrange(80, 728)) ==> (r matches Ok(m) && m.region == (
        DT2Region {
            top_left: dsi_corner(data@.subrange(80, 728), 219, 226),
            top_right: dsi_corner(data@.subrange(80, 728), 234, 241),
            bottom_right: dsi_corner(data@.subrange(80, 728), 249, 256),
            bottom_left: dsi_corner(data@.subrange(80, 728), 204, 211),
        }) && dted_tags_ok(m.tags@)),
{
    if data.len() < 728 {
        return Err(
            DT2ErrorState::UnexpectedFormat(
                String::from_str("file too short for the UHL and DSI blocks"),
            ),
        );
    }
    let mut tags: Vec<(String, String)> = Vec::new();
    tags.push((String::from_str("Filetype"), String::from_str("DTED")));
    let _uhl = UserHeaderLabel::from_bytes(slice_subrange(data, 0, 80))?;
    let dsi = DataSetIdentification::from_bytes(slice_subrange(data, 80, 728))?;
    if !(corner_in_range(dsi.sw_corner) && corner_in_range(dsi.nw_corner) && corner_in_range(
        dsi.ne_corner,
    ) && corner_in_range(dsi.se_corner)) {
        return Err(
            DT2ErrorState::UnexpectedFormat(
                String::from_str("a corner lies outside the WGS-84 ranges"),
            ),
        );
    }
    Ok(
        DT2MetaData {
            region: DT2Region {
                top_left: dsi.nw_corner,
                top_right: dsi.ne_corner,
                bottom_right: dsi.se_corner,
                bottom_left: dsi.sw_corner,
            },
            tags,
        },
    )
}

/// Whether a corner lies within the WGS-84 ranges.
fn corner_in_range(c: Coordinate) -> (r: bool)
    ensures
        r == coordinate_in_bounds(c),
{
    -180 * crate::COORD_SCALE <= c.0 && c.0 <= 180 * crate::COORD_SCALE && -90
        * crate::COORD_SCALE <= c.1 && c.1 <= 90 * crate::COORD_SCALE
}

/// A `DDMMSSH` latitude whose degrees stay below 90 and whose minutes
/// and seconds are in range decodes to a latitude within [-90, 90]
/// degrees; a `DDDMMSSH` longitude whose degrees stay below 180 decodes
/// likewise to within [-180, 180] degrees.
pub proof fn lemma_dms_units_in_range(b: Seq<u8>)
    ensures
        ddmmssh_valid(b) && two_digits(b, 0) < 90 && two_digits(b, 2) < 60 && two_digits(b, 4)
            < 60 ==> -90 * crate::COORD_SCALE <= ddmmssh_units(b) <= 90 * crate::COORD_SCALE,
        dddmmssh_valid(b) && three_digits(b, 0) < 180 && two_digits(b, 3) < 60 && two_digits(b, 5)
            < 60 ==> -180 * crate::COORD_SCALE <= dddmmssh_units(b) <= 180 * crate::COORD_SCALE,
{
}

} // verus!
