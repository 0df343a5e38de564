//! Records of a PSS/E RAW case file: the case identification line, bus
//! records and load records.
//!
//! Numbers with a fractional part are kept as their decimal text, exactly
//! as written; integers are read into their field types and a value out of
//! a field's range makes the record unreadable. Text fields are quoted and
//! limited in their UTF-8 length.

use crate::lexer::{
    chars_of,
    blanks_end, char_at, comma_at, comment_end, decimal_at, flag_at, opt_comma_end,
    opt_decimal_at, opt_flag_at, opt_unsigned_at, quoted_at, read_comma, read_decimal, read_flag,
    read_opt_decimal, read_opt_flag, read_opt_unsigned, read_quoted, read_signed, read_unsigned,
    signed_at, skip_blanks, skip_comment, skip_opt_comma, unsigned_at,
};
use vstd::prelude::*;

verus! {

/// Largest UTF-8 length of a bus name.
pub const NAME_CAP: usize = 15;

/// Largest UTF-8 length of a load identifier.
pub const ID_CAP: usize = 3;

pub const I8_MAX: u64 = 0x7f;

pub const I16_MAX: u64 = 0x7fff;

pub const I32_MAX: u64 = 0x7fff_ffff;

/// A decimal number as written: an optional minus sign, digits, and
/// optionally a point followed by digits.
#[derive(Debug, Clone)]
pub struct Decimal {
    text: String,
}

impl View for Decimal {
    type V = Seq<char>;

    closed spec fn view(&self) -> Seq<char> {
        self.text@
    }
}

impl Decimal {
    /// The number's text.
    pub fn as_str(&self) -> (r: &str)
        ensures
            r@ == self@,
    {
        self.text.as_str()
    }
}

pub open spec fn opt_text(d: Option<Decimal>) -> Option<Seq<char>> {
    match d {
        Some(x) => Some(x@),
        None => None,
    }
}

/// Case identification data.
#[derive(Debug, Clone)]
pub struct CaseId {
    /// Change code; 0 for a base case.
    pub ic: i8,
    /// System base MVA.
    pub sbase: Decimal,
    /// PSS/E revision number, if given.
    pub rev: Option<usize>,
    /// Units of transformer ratings, if given.
    pub xfrrat: Option<i8>,
    /// Units of non-transformer branch ratings, if given.
    pub nxfrat: Option<i8>,
    /// System base frequency in Hz, if given.
    pub basfrq: Option<Decimal>,
}

pub struct CaseIdView {
    pub ic: int,
    pub sbase: Seq<char>,
    pub rev: Option<int>,
    pub xfrrat: Option<int>,
    pub nxfrat: Option<int>,
    pub basfrq: Option<Seq<char>>,
}

pub open spec fn opt_int<T: Integer>(x: Option<T>) -> Option<int> {
    match x {
        Some(v) => Some(v as int),
        None => None,
    }
}

impl View for CaseId {
    type V = CaseIdView;

    open spec fn view(&self) -> CaseIdView {
        CaseIdView {
            ic: self.ic as int,
            sbase: self.sbase@,
            rev: opt_int(self.rev),
            xfrrat: opt_int(self.xfrrat),
            nxfrat: opt_int(self.nxfrat),
            basfrq: opt_text(self.basfrq),
        }
    }
}

/// The case identification record at `p0`.
pub open spec fn case_id_at(s: Seq<char>, p0: int) -> Option<(CaseIdView, int)> {
    match unsigned_at(s, blanks_end(s, p0), I8_MAX as int) {
        None => None,
        Some((ic, p1)) => match comma_at(s, p1) {
            None => None,
            Some(p2) => match decimal_at(s, p2) {
                None => None,
                Some((sbase, p3)) => match comma_at(s, p3) {
                    None => None,
                    Some(p4) => {
                        let (rev, p5) = opt_unsigned_at(s, p4, usize::MAX as int);
                        match comma_at(s, p5) {
                            None => None,
                            Some(p6) => {
                                let (xfrrat, p7) = opt_unsigned_at(s, p6, I8_MAX as int);
                                let (nxfrat, p8) = opt_unsigned_at(
                                    s,
                                    opt_comma_end(s, p7),
                                    I8_MAX as int,
                                );
                                let (basfrq, p9) = opt_decimal_at(s, opt_comma_end(s, p8));
                                Some(
                                    (
                                        CaseIdView { ic, sbase, rev, xfrrat, nxfrat, basfrq },
                                        comment_end(s, p9),
                                    ),
                                )
                            },
                        }
                    },
                },
            },
        },
    }
}

/// Reads the case identification record at `p`.
pub fn read_case_id(s: &Vec<char>, p: usize) -> (r: Option<(CaseId, usize)>)
    requires
        p <= s@.len(),
    ensures
        match r {
            Some((v, e)) => case_id_at(s@, p as int) == Some((v@, e as int)),
            None => case_id_at(s@, p as int) is None,
        },
        r matches Some((_, e)) ==> e <= s@.len(),
{
    let p = skip_blanks(s, p);
    let (ic, p) = match read_unsigned(s, p, I8_MAX) {
        Some(x) => x,
        None => return None,
    };
    let p = match read_comma(s, p) {
        Some(x) => x,
        None => return None,
    };
    let (sbase, p) = match read_decimal(s, p) {
        Some(x) => x,
        None => return None,
    };
    let p = match read_comma(s, p) {
        Some(x) => x,
        None => return None,
    };
    let (rev, p) = read_opt_unsigned(s, p, usize::MAX as u64);
    let p = match read_comma(s, p) {
        Some(x) => x,
        None => return None,
    };
    let (xfrrat, p) = read_opt_unsigned(s, p, I8_MAX);
    let p = skip_opt_comma(s, p);
    let (nxfrat, p) = read_opt_unsigned(s, p, I8_MAX);
    let p = skip_opt_comma(s, p);
    let (basfrq, p) = read_opt_decimal(s, p);
    let p = skip_comment(s, p);
    let case_id = CaseId {
        ic: ic as i8,
        sbase: Decimal { text: sbase },
        rev: match rev {
            Some(v) => Some(v as usize),
            None => None,
        },
        xfrrat: match xfrrat {
            Some(v) => Some(v as i8),
            None => None,
        },
        nxfrat: match nxfrat {
            Some(v) => Some(v as i8),
            None => None,
        },
        basfrq: match basfrq {
            Some(t) => Some(Decimal { text: t }),
            None => None,
        },
    };
    Some((case_id, p))
}

/// A bus record.
#[derive(Debug, Clone)]
pub struct BusRecord {
    /// Bus number.
    pub i: i32,
    /// Bus name.
    pub name: String,
    /// Base voltage in kV.
    pub basekv: Decimal,
    /// Bus type code.
    pub ide: i8,
    /// Area number.
    pub area: i16,
    /// Zone number.
    pub zone: i16,
    /// Owner number.
    pub owner: i16,
    /// Voltage magnitude, per unit.
    pub vm: Decimal,
    /// Voltage angle in degrees.
    pub va: Decimal,
    /// Normal voltage magnitude high limit, per unit.
    pub nvhi: Decimal,
    /// Normal voltage magnitude low limit, per unit.
    pub nvlo: Decimal,
    /// Emergency voltage magnitude high limit, per unit.
    pub evhi: Decimal,
    /// Emergency voltage magnitude low limit, per unit.
    pub evlo: Decimal,
}

pub struct BusView {
    pub i: int,
    pub name: Seq<char>,
    pub basekv: Seq<char>,
    pub ide: int,
    pub area: int,
    pub zone: int,
    pub owner: int,
    pub vm: Seq<char>,
    pub va: Seq<char>,
    pub nvhi: Seq<char>,
    pub nvlo: Seq<char>,
    pub evhi: Seq<char>,
    pub evlo: Seq<char>,
}

impl View for BusRecord {
    type V = BusView;

    open spec fn view(&self) -> BusView {
        BusView {
            i: self.i as int,
            name: self.name@,
            basekv: self.basekv@,
            ide: self.ide as int,
            area: self.area as int,
            zone: self.zone as int,
            owner: self.owner as int,
            vm: self.vm@,
            va: self.va@,
            nvhi: self.nvhi@,
            nvlo: self.nvlo@,
            evhi: self.evhi@,
            evlo: self.evlo@,
        }
    }
}

/// An unsigned value no larger than `max`, then a comma and blanks.
pub open spec fn unsigned_comma_at(s: Seq<char>, p: int, max: int) -> Option<(int, int)> {
    match unsigned_at(s, p, max) {
        Some((v, e)) => match comma_at(s, e) {
            Some(f) => Some((v, f)),
            None => None,
        },
        None => None,
    }
}

/// A decimal number, then a comma and blanks.
pub open spec fn decimal_comma_at(s: Seq<char>, p: int) -> Option<(Seq<char>, int)> {
    match decimal_at(s, p) {
        Some((v, e)) => match comma_at(s, e) {
            Some(f) => Some((v, f)),
            None => None,
        },
        None => None,
    }
}

/// Quoted text, then a comma and blanks.
pub open spec fn quoted_comma_at(s: Seq<char>, p: int, cap: int) -> Option<(Seq<char>, int)> {
    match quoted_at(s, p, cap) {
        Some((v, e)) => match comma_at(s, e) {
            Some(f) => Some((v, f)),
            None => None,
        },
        None => None,
    }
}

/// A flag, then a comma and blanks.
pub open spec fn flag_comma_at(s: Seq<char>, p: int) -> Option<(bool, int)> {
    match flag_at(s, p) {
        Some((v, e)) => match comma_at(s, e) {
            Some(f) => Some((v, f)),
            None => None,
        },
        None => None,
    }
}

/// Reads an unsigned value and the comma after it.
pub fn read_unsigned_comma(s: &Vec<char>, p: usize, max: u64) -> (r: Option<(u64, usize)>)
    requires
        p <= s@.len(),
    ensures
        match r {
            Some((v, e)) => unsigned_comma_at(s@, p as int, max as int) == Some((v as int, e as int)),
            None => unsigned_comma_at(s@, p as int, max as int) is None,
        },
        r matches Some((_, e)) ==> e <= s@.len(),
{
    match read_unsigned(s, p, max) {
        Some((v, e)) => match read_comma(s, e) {
            Some(f) => Some((v, f)),
            None => None,
        },
        None => None,
    }
}

/// Reads a decimal number and the comma after it.
pub fn read_decimal_comma(s: &Vec<char>, p: usize) -> (r: Option<(Decimal, usize)>)
    requires
        p <= s@.len(),
    ensures
        match r {
            Some((v, e)) => decimal_comma_at(s@, p as int) == Some((v@, e as int)),
            None => decimal_comma_at(s@, p as int) is None,
        },
        r matches Some((_, e)) ==> e <= s@.len(),
{
    match read_decimal(s, p) {
        Some((v, e)) => match read_comma(s, e) {
            Some(f) => Some((Decimal { text: v }, f)),
            None => None,
        },
        None => None,
    }
}

/// Reads a decimal number.
pub fn read_decimal_field(s: &Vec<char>, p: usize) -> (r: Option<(Decimal, usize)>)
    requires
        p <= s@.len(),
    ensures
        match r {
            Some((v, e)) => decimal_at(s@, p as int) == Some((v@, e as int)),
            None => decimal_at(s@, p as int) is None,
        },
        r matches Some((_, e)) ==> e <= s@.len(),
{
    match read_decimal(s, p) {
        Some((v, e)) => Some((Decimal { text: v }, e)),
        None => None,
    }
}

/// Reads quoted text and the comma after it.
pub fn read_quoted_comma(s: &Vec<char>, p: usize, cap: usize) -> (r: Option<(String, usize)>)
    requires
        p <= s@.len(),
    ensures
        match r {
            Some((v, e)) => quoted_comma_at(s@, p as int, cap as int) == Some((v@, e as int)),
            None => quoted_comma_at(s@, p as int, cap as int) is None,
        },
        r matches Some((_, e)) ==> e <= s@.len(),
{
    match read_quoted(s, p, cap) {
        Some((v, e)) => match read_comma(s, e) {
            Some(f) => Some((v, f)),
            None => None,
        },
        None => None,
    }
}

/// Reads a flag and the comma after it.
pub fn read_flag_comma(s: &Vec<char>, p: usize) -> (r: Option<(bool, usize)>)
    requires
        p <= s@.len(),
    ensures
        match r {
            Some((v, e)) => flag_comma_at(s@, p as int) == Some((v, e as int)),
            None => flag_comma_at(s@, p as int) is None,
        },
        r matches Some((_, e)) ==> e <= s@.len(),
{
    match read_flag(s, p) {
        Some((v, e)) => match read_comma(s, e) {
            Some(f) => Some((v, f)),
            None => None,
        },
        None => None,
    }
}

/// The bus record at `p0`.
pub open spec fn bus_at(s: Seq<char>, p0: int) -> Option<(BusView, int)> {
    match unsigned_comma_at(s, blanks_end(s, p0), I32_MAX as int) {
        None => None,
        Some((i, p1)) => match quoted_comma_at(s, p1, NAME_CAP as int) {
            None => None,
            Some((name, p2)) => match decimal_comma_at(s, p2) {
                None => None,
                Some((basekv, p3)) => match unsigned_comma_at(s, p3, I8_MAX as int) {
                    None => None,
                    Some((ide, p4)) => match unsigned_comma_at(s, p4, I16_MAX as int) {
                        None => None,
                        Some((area, p5)) => match unsigned_comma_at(s, p5, I16_MAX as int) {
                            None => None,
                            Some((zone, p6)) => match unsigned_at(s, p6, I16_MAX as int) {
                                None => None,
                                Some((owner, p7)) => match decimal_comma_at(
                                    s,
                                    opt_comma_end(s, p7),
                                ) {
                                    None => None,
                                    Some((vm, p8)) => match decimal_comma_at(s, p8) {
                                        None => None,
                                        Some((va, p9)) => match decimal_comma_at(s, p9) {
                                            None => None,
                                            Some((nvhi, p10)) => match decimal_comma_at(s, p10) {
                                                None => None,
                                                Some((nvlo, p11)) => match decimal_comma_at(
                                                    s,
                                                    p11,
                                                ) {
                                                    None => None,
                                                    Some((evhi, p12)) => match decimal_at(s, p12) {
                                                        None => None,
                                                        Some((evlo, p13)) => Some(
                                                            (
                                                                BusView {
                                                                    i,
                                                                    name,
                                                                    basekv,
                                                                    ide,
                                                                    area,
                                                                    zone,
                                                                    owner,
                                                                    vm,
                                                                    va,
                                                                    nvhi,
                                                                    nvlo,
                                                                    evhi,
                                                                    evlo,
                                                                },
                                                                p13,
                                                            ),
                                                        ),
                                                    },
                                                },
                                            },
                                        },
                                    },
                                },
                            },
                        },
                    },
                },
            },
        },
    }
}

/// Reads the bus record at `p`.
pub fn read_bus(s: &Vec<char>, p: usize) -> (r: Option<(BusRecord, usize)>)
    requires
        p <= s@.len(),
    ensures
        match r {
            Some((v, e)) => bus_at(s@, p as int) == Some((v@, e as int)),
            None => bus_at(s@, p as int) is None,
        },
        r matches Some((_, e)) ==> e <= s@.len(),
{
    let p = skip_blanks(s, p);
    let (i, p) = match read_unsigned_comma(s, p, I32_MAX) {
        Some(x) => x,
        None => return None,
    };
    let (name, p) = match read_quoted_comma(s, p, NAME_CAP) {
        Some(x) => x,
        None => return None,
    };
    let (basekv, p) = match read_decimal_comma(s, p) {
        Some(x) => x,
        None => return None,
    };
    let (ide, p) = match read_unsigned_comma(s, p, I8_MAX) {
        Some(x) => x,
        None => return None,
    };
    let (area, p) = match read_unsigned_comma(s, p, I16_MAX) {
        Some(x) => x,
        None => return None,
    };
    let (zone, p) = match read_unsigned_comma(s, p, I16_MAX) {
        Some(x) => x,
        None => return None,
    };
    let (owner, p) = match read_unsigned(s, p, I16_MAX) {
        Some(x) => x,
        None => return None,
    };
    let p = skip_opt_comma(s, p);
    let (vm, p) = match read_decimal_comma(s, p) {
        Some(x) => x,
        None => return None,
    };
    let (va, p) = match read_decimal_comma(s, p) {
        Some(x) => x,
        None => return None,
    };
    let (nvhi, p) = match read_decimal_comma(s, p) {
        Some(x) => x,
        None => return None,
    };
    let (nvlo, p) = match read_decimal_comma(s, p) {
        Some(x) => x,
        None => return None,
    };
    let (evhi, p) = match read_decimal_comma(s, p) {
        Some(x) => x,
        None => return None,
    };
    let (evlo, p) = match read_decimal_field(s, p) {
        Some(x) => x,
        None => return None,
    };
    let bus = BusRecord {
        i: i as i32,
        name,
        basekv,
        ide: ide as i8,
        area: area as i16,
        zone: zone as i16,
        owner: owner as i16,
        vm,
        va,
        nvhi,
        nvlo,
        evhi,
        evlo,
    };
    Some((bus, p))
}

/// A load record.
#[derive(Debug, Clone)]
pub struct LoadRecord {
    /// Bus number.
    pub i: i32,
    /// Load identifier.
    pub id: String,
    /// In service.
    pub status: bool,
    /// Area number.
    pub area: i16,
    /// Zone number.
    pub zone: i16,
    /// Active power of the constant-power part, MW.
    pub pl: Decimal,
    /// Reactive power of the constant-power part, Mvar.
    pub ql: Decimal,
    /// Active power of the constant-current part, MW at 1 pu voltage.
    pub ip: Decimal,
    /// Reactive power of the constant-current part, Mvar at 1 pu voltage.
    pub iq: Decimal,
    /// Active power of the constant-admittance part, MW at 1 pu voltage.
    pub yp: Decimal,
    /// Reactive power of the constant-admittance part, Mvar at 1 pu voltage.
    pub yq: Decimal,
    /// Owner number.
    pub owner: i16,
    /// Load scaling flag, if given.
    pub scale: Option<bool>,
    /// Interruptible load flag, if given.
    pub intrpt: Option<bool>,
}

pub struct LoadView {
    pub i: int,
    pub id: Seq<char>,
    pub status: bool,
    pub area: int,
    pub zone: int,
    pub pl: Seq<char>,
    pub ql: Seq<char>,
    pub ip: Seq<char>,
    pub iq: Seq<char>,
    pub yp: Seq<char>,
    pub yq: Seq<char>,
    pub owner: int,
    pub scale: Option<bool>,
    pub intrpt: Option<bool>,
}

impl View for LoadRecord {
    type V = LoadView;

    open spec fn view(&self) -> LoadView {
        LoadView {
            i: self.i as int,
            id: self.id@,
            status: self.status,
            area: self.area as int,
            zone: self.zone as int,
            pl: self.pl@,
            ql: self.ql@,
            ip: self.ip@,
            iq: self.iq@,
            yp: self.yp@,
            yq: self.yq@,
            owner: self.owner as int,
            scale: self.scale,
            intrpt: self.intrpt,
        }
    }
}

/// The six power figures of a load record, each followed by a comma.
pub open spec fn load_powers_at(s: Seq<char>, p0: int) -> Option<(Seq<Seq<char>>, int)> {
    match decimal_comma_at(s, p0) {
        None => None,
        Some((pl, p1)) => match decimal_comma_at(s, p1) {
            None => None,
            Some((ql, p2)) => match decimal_comma_at(s, p2) {
                None => None,
                Some((ip, p3)) => match decimal_comma_at(s, p3) {
                    None => None,
                    Some((iq, p4)) => match decimal_comma_at(s, p4) {
                        None => None,
                        Some((yp, p5)) => match decimal_comma_at(s, p5) {
                            None => None,
                            Some((yq, p6)) => Some((seq![pl, ql, ip, iq, yp, yq], p6)),
                        },
                    },
                },
            },
        },
    }
}

/// The load record at `p0`.
pub open spec fn load_at(s: Seq<char>, p0: int) -> Option<(LoadView, int)> {
    match unsigned_comma_at(s, p0, I32_MAX as int) {
        None => None,
        Some((i, p1)) => match quoted_comma_at(s, p1, ID_CAP as int) {
            None => None,
            Some((id, p2)) => match flag_comma_at(s, p2) {
                None => None,
                Some((status, p3)) => match unsigned_comma_at(s, p3, I16_MAX as int) {
                    None => None,
                    Some((area, p4)) => match unsigned_comma_at(s, p4, I16_MAX as int) {
                        None => None,
                        Some((zone, p5)) => match load_powers_at(s, p5) {
                            None => None,
                            Some((w, p6)) => match unsigned_at(s, p6, I16_MAX as int) {
                                None => None,
                                Some((owner, p7)) => {
                                    let (scale, p8) = opt_flag_at(s, opt_comma_end(s, p7));
                                    let (intrpt, p9) = opt_flag_at(s, opt_comma_end(s, p8));
                                    Some(
                                        (
                                            LoadView {
                                                i,
                                                id,
                                                status,
                                                area,
                                                zone,
                                                pl: w[0],
                                                ql: w[1],
                                                ip: w[2],
                                                iq: w[3],
                                                yp: w[4],
                                                yq: w[5],
                                                owner,
                                                scale,
                                                intrpt,
                                            },
                                            opt_comma_end(s, p9),
                                        ),
                                    )
                                },
                            },
                        },
                    },
                },
            },
        },
    }
}

/// Reads the six power figures of a load record.
fn read_load_powers(s: &Vec<char>, p: usize) -> (r: Option<(Vec<Decimal>, usize)>)
    requires
        p <= s@.len(),
    ensures
        match r {
            Some((w, e)) => load_powers_at(s@, p as int) == Some(
                (w@.map_values(|d: Decimal| d@), e as int),
            ),
            None => load_powers_at(s@, p as int) is None,
        },
        r matches Some((w, e)) ==> e <= s@.len() && w@.len() == 6,
{
    let (pl, p) = match read_decimal_comma(s, p) {
        Some(x) => x,
        None => return None,
    };
    let (ql, p) = match read_decimal_comma(s, p) {
        Some(x) => x,
        None => return None,
    };
    let (ip, p) = match read_decimal_comma(s, p) {
        Some(x) => x,
        None => return None,
    };
    let (iq, p) = match read_decimal_comma(s, p) {
        Some(x) => x,
        None => return None,
    };
    let (yp, p) = match read_decimal_comma(s, p) {
        Some(x) => x,
        None => return None,
    };
    let (yq, p) = match read_decimal_comma(s, p) {
        Some(x) => x,
        None => return None,
    };
    let w = vec![pl, ql, ip, iq, yp, yq];
    assert(w@.map_values(|d: Decimal| d@) =~= seq![w@[0]@, w@[1]@, w@[2]@, w@[3]@, w@[4]@, w@[5]@]);
    Some((w, p))
}

/// Reads the load record at `p`.
pub fn read_load(s: &Vec<char>, p: usize) -> (r: Option<(LoadRecord, usize)>)
    requires
        p <= s@.len(),
    ensures
        match r {
            Some((v, e)) => load_at(s@, p as int) == Some((v@, e as int)),
            None => load_at(s@, p as int) is None,
        },
        r matches Some((_, e)) ==> e <= s@.len(),
{
    let (i, p) = match read_unsigned_comma(s, p, I32_MAX) {
        Some(x) => x,
        None => return None,
    };
    let (id, p) = match read_quoted_comma(s, p, ID_CAP) {
        Some(x) => x,
        None => return None,
    };
    let (status, p) = match read_flag_comma(s, p) {
        Some(x) => x,
        None => return None,
    };
    let (area, p) = match read_unsigned_comma(s, p, I16_MAX) {
        Some(x) => x,
        None => return None,
    };
    let (zone, p) = match read_unsigned_comma(s, p, I16_MAX) {
        Some(x) => x,
        None => return None,
    };
    let (mut w, p) = match read_load_powers(s, p) {
        Some(x) => x,
        None => return None,
    };
    let ghost wv = w@.map_values(|d: Decimal| d@);
    let (owner, p) = match read_unsigned(s, p, I16_MAX) {
        Some(x) => x,
        None => return None,
    };
    let p = skip_opt_comma(s, p);
    let (scale, p) = read_opt_flag(s, p);
    let p = skip_opt_comma(s, p);
    let (intrpt, p) = read_opt_flag(s, p);
    let p = skip_opt_comma(s, p);
    let yq = w.pop().unwrap();
    let yp = w.pop().unwrap();
    let iq = w.pop().unwrap();
    let ip = w.pop().unwrap();
    let ql = w.pop().unwrap();
    let pl = w.pop().unwrap();
    let load = LoadRecord {
        i: i as i32,
        id,
        status,
        area: area as i16,
        zone: zone as i16,
        pl,
        ql,
        ip,
        iq,
        yp,
        yq,
        owner: owner as i16,
        scale,
        intrpt,
    };
    assert(load@.pl == wv[0] && load@.ql == wv[1] && load@.ip == wv[2]);
    assert(load@.iq == wv[3] && load@.yp == wv[4] && load@.yq == wv[5]);
    Some((load, p))
}

/// Further bus records after position `q`, each after a line feed, up to
/// the first line that holds none.
pub open spec fn bus_rest_at(s: Seq<char>, q: int) -> (Seq<BusView>, int)
    decreases s.len() - q,
{
    if char_at(s, q, '\n') {
        match bus_at(s, q + 1) {
            Some((v, e)) => if q < e <= s.len() {
                let (rest, f) = bus_rest_at(s, e);
                (seq![v] + rest, f)
            } else {
                (seq![], q)
            },
            None => (seq![], q),
        }
    } else {
        (seq![], q)
    }
}

/// One or more bus records at `p`, separated by line feeds.
pub open spec fn bus_list_at(s: Seq<char>, p: int) -> Option<(Seq<BusView>, int)> {
    match bus_at(s, p) {
        Some((v, e)) => {
            let (rest, f) = bus_rest_at(s, e);
            Some((seq![v] + rest, f))
        },
        None => None,
    }
}

/// Reads one or more bus records at `p`, separated by line feeds.
pub fn read_bus_list(s: &Vec<char>, p: usize) -> (r: Option<(Vec<BusRecord>, usize)>)
    requires
        p <= s@.len(),
    ensures
        match r {
            Some((v, e)) => bus_list_at(s@, p as int) == Some(
                (v@.map_values(|x: BusRecord| x@), e as int),
            ),
            None => bus_list_at(s@, p as int) is None,
        },
        r matches Some((_, e)) ==> e <= s@.len(),
{
    let (first, q0) = match read_bus(s, p) {
        Some(x) => x,
        None => return None,
    };
    let mut out: Vec<BusRecord> = Vec::new();
    out.push(first);
    let mut q = q0;
    loop
        invariant
            q <= s@.len(),
            q0 <= s@.len(),
            out@.len() >= 1,
            bus_at(s@, p as int) == Some((out@[0]@, q0 as int)),
            bus_rest_at(s@, q0 as int) == (
                out@.map_values(|x: BusRecord| x@).drop_first() + bus_rest_at(s@, q as int).0,
                bus_rest_at(s@, q as int).1,
            ),
        ensures
            bus_rest_at(s@, q as int) == (Seq::<BusView>::empty(), q as int),
        decreases s@.len() - q,
    {
        if !(q < s.len() && s[q] == '\n') {
            break;
        }
        let (v, e) = match read_bus(s, q + 1) {
            Some(x) => x,
            None => break,
        };
        // a record is never empty, so `e` is past `q`
        if e <= q {
            break;
        }
        let ghost before = out@.map_values(|x: BusRecord| x@);
        out.push(v);
        proof {
            let after = out@.map_values(|x: BusRecord| x@);
            assert(after.drop_first() =~= before.drop_first() + seq![v@]);
            assert(before.drop_first() + (seq![v@] + bus_rest_at(s@, e as int).0)
                =~= after.drop_first() + bus_rest_at(s@, e as int).0);
        }
        q = e;
    }
    proof {
        let vs = out@.map_values(|x: BusRecord| x@);
        assert(vs =~= seq![out@[0]@] + vs.drop_first());
        assert(vs.drop_first() + seq![] =~= vs.drop_first());
    }
    Some((out, q))
}

/// Further load records after position `q`, each after a line feed, up to
/// the first line that holds none.
pub open spec fn load_rest_at(s: Seq<char>, q: int) -> (Seq<LoadView>, int)
    decreases s.len() - q,
{
    if char_at(s, q, '\n') {
        match load_at(s, q + 1) {
            Some((v, e)) => if q < e <= s.len() {
                let (rest, f) = load_rest_at(s, e);
                (seq![v] + rest, f)
            } else {
                (seq![], q)
            },
            None => (seq![], q),
        }
    } else {
        (seq![], q)
    }
}

/// One or more load records at `p`, separated by line feeds.
pub open spec fn load_list_at(s: Seq<char>, p: int) -> Option<(Seq<LoadView>, int)> {
    match load_at(s, p) {
        Some((v, e)) => {
            let (rest, f) = load_rest_at(s, e);
            Some((seq![v] + rest, f))
        },
        None => None,
    }
}

/// Reads one or more load records at `p`, separated by line feeds.
pub fn read_load_list(s: &Vec<char>, p: usize) -> (r: Option<(Vec<LoadRecord>, usize)>)
    requires
        p <= s@.len(),
    ensures
        match r {
            Some((v, e)) => load_list_at(s@, p as int) == Some(
                (v@.map_values(|x: LoadRecord| x@), e as int),
            ),
            None => load_list_at(s@, p as int) is None,
        },
        r matches Some((_, e)) ==> e <= s@.len(),
{
    let (first, q0) = match read_load(s, p) {
        Some(x) => x,
        None => return None,
    };
    let mut out: Vec<LoadRecord> = Vec::new();
    out.push(first);
    let mut q = q0;
    loop
        invariant
            q <= s@.len(),
            q0 <= s@.len(),
            out@.len() >= 1,
            load_at(s@, p as int) == Some((out@[0]@, q0 as int)),
            load_rest_at(s@, q0 as int) == (
                out@.map_values(|x: LoadRecord| x@).drop_first() + load_rest_at(s@, q as int).0,
                load_rest_at(s@, q as int).1,
            ),
        ensures
            load_rest_at(s@, q as int) == (Seq::<LoadView>::empty(), q as int),
        decreases s@.len() - q,
    {
        if !(q < s.len() && s[q] == '\n') {
            break;
        }
        let (v, e) = match read_load(s, q + 1) {
            Some(x) => x,
            None => break,
        };
        // a record is never empty, so `e` is past `q`
        if e <= q {
            break;
        }
        let ghost before = out@.map_values(|x: LoadRecord| x@);
        out.push(v);
        proof {
            let after = out@.map_values(|x: LoadRecord| x@);
            assert(after.drop_first() =~= before.drop_first() + seq![v@]);
            assert(before.drop_first() + (seq![v@] + load_rest_at(s@, e as int).0)
                =~= after.drop_first() + load_rest_at(s@, e as int).0);
        }
        q = e;
    }
    proof {
        let vs = out@.map_values(|x: LoadRecord| x@);
        assert(vs =~= seq![out@[0]@] + vs.drop_first());
        assert(vs.drop_first() + seq![] =~= vs.drop_first());
    }
    Some((out, q))
}

/// A line holding a single `0`, possibly followed by blanks, that ends a
/// group of records: the position after its line feed.
pub open spec fn zero_line_at(s: Seq<char>, p: int) -> Option<int> {
    let q = blanks_end(s, p + 1);
    if char_at(s, p, '0') && char_at(s, q, '\n') {
        Some(q + 1)
    } else {
        None
    }
}

/// Reads a line holding a single `0`.
pub fn read_zero_line(s: &Vec<char>, p: usize) -> (r: Option<usize>)
    requires
        p <= s@.len(),
    ensures
        match r {
            Some(e) => zero_line_at(s@, p as int) == Some(e as int),
            None => zero_line_at(s@, p as int) is None,
        },
        r matches Some(e) ==> e <= s@.len(),
{
    if !(p < s.len() && s[p] == '0') {
        return None;
    }
    let q = skip_blanks(s, p + 1);
    if q < s.len() && s[q] == '\n' {
        Some(q + 1)
    } else {
        None
    }
}

/// The records of a case: its identification, its buses and its loads.
#[derive(Debug, Clone)]
pub struct RawCase {
    pub caseid: CaseId,
    pub buses: Vec<BusRecord>,
    pub loads: Vec<LoadRecord>,
}

pub struct RawCaseView {
    pub caseid: CaseIdView,
    pub buses: Seq<BusView>,
    pub loads: Seq<LoadView>,
}

impl View for RawCase {
    type V = RawCaseView;

    open spec fn view(&self) -> RawCaseView {
        RawCaseView {
            caseid: self.caseid@,
            buses: self.buses@.map_values(|x: BusRecord| x@),
            loads: self.loads@.map_values(|x: LoadRecord| x@),
        }
    }
}

/// A case at `p`: the identification line, bus records, a zero line and
/// load records, each group starting on a line of its own.
pub open spec fn case_at(s: Seq<char>, p: int) -> Option<(RawCaseView, int)> {
    match case_id_at(s, p) {
        None => None,
        Some((caseid, p1)) => match if char_at(s, p1, '\n') {
            bus_list_at(s, p1 + 1)
        } else {
            None
        } {
            None => None,
            Some((buses, p2)) => match if char_at(s, p2, '\n') {
                zero_line_at(s, p2 + 1)
            } else {
                None
            } {
                None => None,
                Some(p3) => match load_list_at(s, p3) {
                    None => None,
                    Some((loads, p4)) => Some((RawCaseView { caseid, buses, loads }, p4)),
                },
            },
        },
    }
}

/// Reads a case at `p`.
pub fn read_case(s: &Vec<char>, p: usize) -> (r: Option<(RawCase, usize)>)
    requires
        p <= s@.len(),
    ensures
        match r {
            Some((v, e)) => case_at(s@, p as int) == Some((v@, e as int)),
            None => case_at(s@, p as int) is None,
        },
        r matches Some((_, e)) ==> e <= s@.len(),
{
    let (caseid, p) = match read_case_id(s, p) {
        Some(x) => x,
        None => return None,
    };
    if !(p < s.len() && s[p] == '\n') {
        return None;
    }
    let (buses, p) = match read_bus_list(s, p + 1) {
        Some(x) => x,
        None => return None,
    };
    if !(p < s.len() && s[p] == '\n') {
        return None;
    }
    let p = match read_zero_line(s, p + 1) {
        Some(x) => x,
        None => return None,
    };
    let (loads, p) = match read_load_list(s, p) {
        Some(x) => x,
        None => return None,
    };
    Some((RawCase { caseid, buses, loads }, p))
}

/// The input does not start with the expected record.
#[derive(Debug, Clone, Copy, PartialEq, Eq)]
pub struct ParseError;

/// Reads a case identification record.
///
/// Returns the rest of the input and the value read; fails when the input
/// does not start with one.
pub fn parse_raw_case_id(input: &str) -> (r: Result<(&str, CaseId), ParseError>)
    ensures
        match case_id_at(input@, 0) {
            Some((v, e)) => r matches Ok((rest, x)) && x@ == v && rest@ == input@.subrange(
                e,
                input@.len() as int,
            ),
            None => r is Err,
        },
{
    let s = chars_of(input);
    match read_case_id(&s, 0) {
        Some((x, e)) => Ok((input.substring_char(e, s.len()), x)),
        None => Err(ParseError),
    }
}

/// Reads a bus record.
///
/// Returns the rest of the input and the value read; fails when the input
/// does not start with one.
pub fn parse_raw_bus(input: &str) -> (r: Result<(&str, BusRecord), ParseError>)
    ensures
        match bus_at(input@, 0) {
            Some((v, e)) => r matches Ok((rest, x)) && x@ == v && rest@ == input@.subrange(
                e,
                input@.len() as int,
            ),
            None => r is Err,
        },
{
    let s = chars_of(input);
    match read_bus(&s, 0) {
        Some((x, e)) => Ok((input.substring_char(e, s.len()), x)),
        None => Err(ParseError),
    }
}

/// Reads one or more bus records separated by line feeds.
///
/// Returns the rest of the input and the value read; fails when the input
/// does not start with one.
pub fn parse_raw_buses(input: &str) -> (r: Result<(&str, Vec<BusRecord>), ParseError>)
    ensures
        match bus_list_at(input@, 0) {
            Some((v, e)) => r matches Ok((rest, x)) && x@.map_values(|b: BusRecord| b@) == v && rest@ == input@.subrange(
                e,
                input@.len() as int,
            ),
            None => r is Err,
        },
{
    let s = chars_of(input);
    match read_bus_list(&s, 0) {
        Some((x, e)) => Ok((input.substring_char(e, s.len()), x)),
        None => Err(ParseError),
    }
}

/// Reads a load record.
///
/// Returns the rest of the input and the value read; fails when the input
/// does not start with one.
pub fn parse_raw_load(input: &str) -> (r: Result<(&str, LoadRecord), ParseError>)
    ensures
        match load_at(input@, 0) {
            Some((v, e)) => r matches Ok((rest, x)) && x@ == v && rest@ == input@.subrange(
                e,
                input@.len() as int,
            ),
            None => r is Err,
        },
{
    let s = chars_of(input);
    match read_load(&s, 0) {
        Some((x, e)) => Ok((input.substring_char(e, s.len()), x)),
        None => Err(ParseError),
    }
}

/// Reads one or more load records separated by line feeds.
///
/// Returns the rest of the input and the value read; fails when the input
/// does not start with one.
pub fn parse_raw_loads(input: &str) -> (r: Result<(&str, Vec<LoadRecord>), ParseError>)
    ensures
        match load_list_at(input@, 0) {
            Some((v, e)) => r matches Ok((rest, x)) && x@.map_values(|l: LoadRecord| l@) == v && rest@ == input@.subrange(
                e,
                input@.len() as int,
            ),
            None => r is Err,
        },
{
    let s = chars_of(input);
    match read_load_list(&s, 0) {
        Some((x, e)) => Ok((input.substring_char(e, s.len()), x)),
        None => Err(ParseError),
    }
}

/// Reads a line holding a single `0`.
pub fn parse_zero_line(input: &str) -> (r: Result<(&str, ()), ParseError>)
    ensures
        match zero_line_at(input@, 0) {
            Some(e) => r matches Ok((rest, _)) && rest@ == input@.subrange(e, input@.len() as int),
            None => r is Err,
        },
{
    let s = chars_of(input);
    match read_zero_line(&s, 0) {
        Some(e) => Ok((input.substring_char(e, s.len()), ())),
        None => Err(ParseError),
    }
}

/// Reads a case: the identification line, bus records, a zero line and
/// load records, each group starting on a line of its own.
///
/// Returns the rest of the input and the value read; fails when the input
/// does not start with one.
pub fn parse_raw_case(input: &str) -> (r: Result<(&str, RawCase), ParseError>)
    ensures
        match case_at(input@, 0) {
            Some((v, e)) => r matches Ok((rest, x)) && x@ == v && rest@ == input@.subrange(
                e,
                input@.len() as int,
            ),
            None => r is Err,
        },
{
    let s = chars_of(input);
    match read_case(&s, 0) {
        Some((x, e)) => Ok((input.substring_char(e, s.len()), x)),
        None => Err(ParseError),
    }
}

} // verus!
