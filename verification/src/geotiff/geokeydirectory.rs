use vstd::prelude::*;

use crate::geotiff::error::{GeoKeyDirectoryErrorState, TIFFErrorState};
use crate::projection::{crs_proj4_def, crs_proj4_of, projstring_kind};
use std::collections::HashMap;

verus! {

/// The first four shorts of a GeoKey directory.
#[derive(Debug, Clone, Copy, PartialEq, Eq, Structural)]
pub struct GeoKeyDirectoryHeader {
    pub key_revision: u16,
    pub minor_revision: u16,
    pub count: u16,
}

impl GeoKeyDirectoryHeader {
    /// Parse the directory header: exactly four shorts whose first,
    /// the key directory version, must be 1.
    pub fn from_shorts(shorts: &[u16]) -> (r: Result<GeoKeyDirectoryHeader, TIFFErrorState>)
        ensures
            shorts@.len() == 4 && shorts@[0] == 1 ==> r == Ok::<
                GeoKeyDirectoryHeader,
                TIFFErrorState,
            >(
                GeoKeyDirectoryHeader {
                    key_revision: shorts@[1],
                    minor_revision: shorts@[2],
                    count: shorts@[3],
                },
            ),
            shorts@.len() != 4 || shorts@[0] != 1 ==> (r matches Err(
                TIFFErrorState::GeoKeyDirectoryError(GeoKeyDirectoryErrorState::UnexpectedFormat(_)),
            )),
    {
        if shorts.len() != 4 {
            return Err(
                TIFFErrorState::GeoKeyDirectoryError(
                    GeoKeyDirectoryErrorState::UnexpectedFormat(
                        String::from_str("unexpected header length"),
                    ),
                ),
            );
        }
        if shorts[0] != 1 {
            return Err(
                TIFFErrorState::GeoKeyDirectoryError(
                    GeoKeyDirectoryErrorState::UnexpectedFormat(
                        String::from_str("unexpected key directory version"),
                    ),
                ),
            );
        }
        Ok(
            GeoKeyDirectoryHeader {
                key_revision: shorts[1],
                minor_revision: shorts[2],
                count: shorts[3],
            },
        )
    }
}

/// One four-short key record of the directory.  `value` holds the
/// inline value when `location` is zero.
#[derive(Debug, Clone, Copy, PartialEq, Eq, Structural)]
pub struct GeoKey {
    pub id: u16,
    pub location: u16,
    pub count: u16,
    pub value: Option<u16>,
}

/// The key record four shorts denote.
pub open spec fn geo_key_of(s: Seq<u16>) -> GeoKey {
    GeoKey {
        id: s[0],
        location: s[1],
        count: s[2],
        value: if s[1] == 0 {
            Some(s[3])
        } else {
            None
        },
    }
}

impl GeoKey {
    /// Parse one key record: exactly four shorts.
    pub fn from_shorts(shorts: &[u16]) -> (r: Result<GeoKey, TIFFErrorState>)
        ensures
            shorts@.len() == 4 ==> r == Ok::<GeoKey, TIFFErrorState>(geo_key_of(shorts@)),
            shorts@.len() != 4 ==> (r matches Err(
                TIFFErrorState::GeoKeyDirectoryError(GeoKeyDirectoryErrorState::UnexpectedFormat(_)),
            )),
    {
        if shorts.len() != 4 {
            return Err(
                TIFFErrorState::GeoKeyDirectoryError(
                    GeoKeyDirectoryErrorState::UnexpectedFormat(
                        String::from_str("unexpected key length"),
                    ),
                ),
            );
        }
        let location = shorts[1];
        let value = if location == 0 {
            Some(shorts[3])
        } else {
            None
        };
        Ok(GeoKey { id: shorts[0], location, count: shorts[2], value })
    }
}

/// The key records of the first `n` four-short groups after the
/// header, as a map from key id to record; a later record with the
/// same id wins.
pub open spec fn geo_keys_map(s: Seq<u16>, n: int) -> Map<u16, GeoKey>
    decreases n,
{
    if n <= 0 {
        Map::empty()
    } else {
        let k = geo_key_of(s.subrange(4 + 4 * (n - 1), 4 + 4 * (n - 1) + 4));
        geo_keys_map(s, n - 1).insert(k.id, k)
    }
}

/// The GeoKey directory: its header and its key records by id.
#[derive(Debug)]
pub struct GeoKeyDirectory {
    pub header: GeoKeyDirectoryHeader,
    pub keys: HashMap<u16, GeoKey>,
}

impl GeoKeyDirectory {
    /// Parse a GeoKey directory from its shorts: a four-short header
    /// whose count announces exactly that many four-short key records.
    pub fn from_shorts(shorts: &Vec<u16>) -> (r: Result<GeoKeyDirectory, TIFFErrorState>)
        ensures
            shorts@.len() >= 4 && shorts@[0] == 1 && shorts@.len() == 4 + 4 * shorts@[3] ==> (
            r matches Ok(d) && d.header == GeoKeyDirectoryHeader {
                key_revision: shorts@[1],
                minor_revision: shorts@[2],
                count: shorts@[3],
            } && d.keys@ == geo_keys_map(shorts@, shorts@[3] as int)),
            shorts@.len() < 4 || shorts@[0] != 1 || shorts@.len() != 4 + 4 * shorts@[3] ==> (
            r matches Err(
                TIFFErrorState::GeoKeyDirectoryError(GeoKeyDirectoryErrorState::UnexpectedFormat(_)),
            )),
    {
        if shorts.len() < 4 {
            return Err(
                TIFFErrorState::GeoKeyDirectoryError(
                    GeoKeyDirectoryErrorState::UnexpectedFormat(
                        String::from_str("no room for a header"),
                    ),
                ),
            );
        }
        let header = GeoKeyDirectoryHeader::from_shorts(vstd::slice::slice_subrange(
            shorts.as_slice(),
            0,
            4,
        ))?;
        let count = header.count as usize;
        if shorts.len() != 4 + 4 * count {
            return Err(
                TIFFErrorState::GeoKeyDirectoryError(
                    GeoKeyDirectoryErrorState::UnexpectedFormat(
                        String::from_str("key records do not match the announced count"),
                    ),
                ),
            );
        }
        let mut map: HashMap<u16, GeoKey> = HashMap::with_capacity(count);
        let mut i: usize = 0;
        while i < count
            invariant
                i <= count,
                count <= 65535,
                shorts@.len() == 4 + 4 * count,
                map@ == geo_keys_map(shorts@, i as int),
            decreases count - i,
        {
            let key = GeoKey::from_shorts(
                vstd::slice::slice_subrange(shorts.as_slice(), 4 + 4 * i, 4 + 4 * i + 4),
            );
            match key {
                Ok(k) => {
                    map.insert(k.id, k);
                },
                Err(e) => {
                    return Err(e);
                },
            }
            i = i + 1;
        }
        Ok(GeoKeyDirectory { header, keys: map })
    }

    /// Which EPSG code the directory names, if any: the geographic key
    /// takes precedence over the projected one, and the geographic
    /// code 4277 is remapped to 27700.
    pub open spec fn spec_crs_code(keys: Map<u16, GeoKey>) -> Option<u16> {
        if keys.contains_key(2048) {
            match keys[2048].value {
                Some(v) => if keys[2048].location == 0 {
                    Some(
                        if v == 4277 {
                            27700u16
                        } else {
                            v
                        },
                    )
                } else {
                    None
                },
                None => None,
            }
        } else if keys.contains_key(3072) {
            if keys[3072].location == 0 {
                keys[3072].value
            } else {
                None
            }
        } else {
            None
        }
    }

    /// Resolve the directory to the EPSG code of its coordinate
    /// reference system, checked against the embedded catalog.  When
    /// the directory names a catalogued code, the result is that code,
    /// unless proj4rs refuses the catalog's definition - which can
    /// depend on the process's datum-grid catalog, so neither outcome
    /// is promised.
    pub fn get_projection(&self, target_epsg: &str) -> (r: Result<u16, TIFFErrorState>)
        ensures
            Self::spec_crs_code(self.keys@) matches Some(code) ==> (match crs_proj4_of(code) {
                Some(def) => (r == Ok::<u16, TIFFErrorState>(code) || (r matches Err(
                    TIFFErrorState::ProjectionError(_),
                ))),
                None => r == Err::<u16, TIFFErrorState>(TIFFErrorState::UnsupportedCrs(code)),
            }),
            Self::spec_crs_code(self.keys@) is None && (self.keys@.contains_key(2048)
                || self.keys@.contains_key(3072)) ==> (r matches Err(
                TIFFErrorState::GeoKeyDirectoryError(GeoKeyDirectoryErrorState::UnexpectedFormat(_)),
            )),
            Self::spec_crs_code(self.keys@) is None && !self.keys@.contains_key(2048)
                && !self.keys@.contains_key(3072) ==> r == Err::<u16, TIFFErrorState>(
                TIFFErrorState::NotEnoughGeoData,
            ),
    {
        let crs_code: u16 = if let Some(v) = self.keys.get(&2048) {
            if v.location == 0 {
                match v.value {
                    Some(v) => if v == 4277 {
                        27700
                    } else {
                        v
                    },
                    None => {
                        return Err(
                            TIFFErrorState::GeoKeyDirectoryError(
                                GeoKeyDirectoryErrorState::UnexpectedFormat(
                                    String::from_str(
                                        "geographic key names no inline value",
                                    ),
                                ),
                            ),
                        );
                    },
                }
            } else {
                return Err(
                    TIFFErrorState::GeoKeyDirectoryError(
                        GeoKeyDirectoryErrorState::UnexpectedFormat(
                            String::from_str("geographic key is not a single short"),
                        ),
                    ),
                );
            }
        } else if let Some(v) = self.keys.get(&3072) {
            if v.location == 0 {
                match v.value {
                    Some(v) => v,
                    None => {
                        return Err(
                            TIFFErrorState::GeoKeyDirectoryError(
                                GeoKeyDirectoryErrorState::UnexpectedFormat(
                                    String::from_str(
                                        "projected key names no inline value",
                                    ),
                                ),
                            ),
                        );
                    },
                }
            } else {
                return Err(
                    TIFFErrorState::GeoKeyDirectoryError(
                        GeoKeyDirectoryErrorState::UnexpectedFormat(
                            String::from_str("projected key is not a single short"),
                        ),
                    ),
                );
            }
        } else {
            return Err(TIFFErrorState::NotEnoughGeoData);
        };
        let def = match crs_proj4_def(crs_code) {
            Some(def) => def,
            None => {
                return Err(TIFFErrorState::UnsupportedCrs(crs_code));
            },
        };
        match projstring_kind(def.as_str()) {
            Some(_) => Ok(crs_code),
            None => Err(
                TIFFErrorState::ProjectionError(
                    String::from_str("the catalog definition does not parse"),
                ),
            ),
        }
    }
}

} // verus!
