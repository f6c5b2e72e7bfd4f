//! Plain serialisation records for inspected document values.
//!
//! The host shows the user what a value under the cursor is; these records
//! carry the plain fields it renders. The compiler-owned values themselves —
//! colors, versions, functions — stay outside this crate; what the records
//! need of them (a printed representation, numeric components) is handed in
//! as plain values, and the assembly of the records is what is verified
//! here.

use vstd::prelude::*;
use vstd::string::StringExecFns;

use crate::text::dec_digits;
use crate::text::hex_byte_digits;
use crate::text::push_hex_byte;
use crate::text::u64_to_string;

verus! {

/// An angle, formatted in degrees and radians.
#[derive(Debug)]
pub struct AngleSer {
    pub deg: String,
    pub rad: String,
}

/// An argument pack, by its printed representation.
#[derive(Debug)]
pub struct ArgsSer {
    pub repr: String,
}

/// A byte buffer, by its length.
#[derive(Debug)]
pub struct BytesSer {
    pub length: usize,
}

/// A color, as `#rrggbbaa`.
#[derive(Debug)]
pub struct ColorSer {
    pub hex: String,
}

/// A content value, by its printed representation.
#[derive(Debug)]
pub struct ContentSer {
    pub repr: String,
}

/// A datetime, by its components; absent components are zero and an absent
/// weekday is empty.
#[derive(Debug)]
pub struct DatetimeSer {
    pub year: i32,
    pub month: u8,
    pub day: u8,
    pub hour: u8,
    pub minute: u8,
    pub second: u8,
    pub weekday: String,
}

/// A dynamic value, by its printed representation.
#[derive(Debug)]
pub struct DynamicSer {
    pub repr: String,
}

/// A gradient, by its printed representation.
#[derive(Debug)]
pub struct GradientSer {
    pub repr: String,
}

/// A label, by its resolved name.
#[derive(Debug)]
pub struct LabelSer {
    pub name: String,
}

/// A length, formatted in em and in points.
#[derive(Debug)]
pub struct LengthSer {
    pub em: String,
    pub abs: String,
}

/// A module, by its name and the size of its scope.
#[derive(Debug)]
pub struct ModuleSer {
    pub name: String,
    pub exports_count: usize,
}

/// A ratio, formatted as a percentage.
#[derive(Debug)]
pub struct RatioSer {
    pub percentage: String,
}

/// A relative length, by its ratio part.
#[derive(Debug)]
pub struct RelativeSer {
    pub ratio: RatioSer,
}

/// A string value.
#[derive(Debug)]
pub struct StrSer {
    pub value: String,
}

/// A style list, by its printed representation.
#[derive(Debug)]
pub struct StylesSer {
    pub repr: String,
}

/// A symbol, by its character.
#[derive(Debug)]
pub struct SymbolSer {
    pub character: String,
}

/// A tiling, by its printed representation.
#[derive(Debug)]
pub struct TilingSer {
    pub repr: String,
}

/// A type, by its title and its documentation.
#[derive(Debug)]
pub struct TypeSer {
    pub title: String,
    pub docs: String,
}

/// A version, formatted as `major.minor.patch`, or a marker text when any
/// of the first three components is missing.
#[derive(Debug)]
pub struct VersionSer {
    pub version: String,
}

/// What the version record shows for given components, a missing component
/// encoded as a negative number: the three numbers dot-separated, or the
/// marker text when any is missing.
pub open spec fn version_text(major: int, minor: int, patch: int) -> Seq<char> {
    if major < 0 || minor < 0 || patch < 0 {
        "Not valid version"@
    } else {
        dec_digits(major) + seq!['.'] + dec_digits(minor) + seq!['.'] + dec_digits(patch)
    }
}

impl VersionSer {
    /// Build the record from the first three version components, a missing
    /// component handed in as a negative number.
    pub fn from_components(major: i64, minor: i64, patch: i64) -> (r: VersionSer)
        ensures
            r.version@ == version_text(major as int, minor as int, patch as int),
    {
        if major < 0 || minor < 0 || patch < 0 {
            VersionSer { version: String::from_str("Not valid version") }
        } else {
            proof {
                reveal_strlit(".");
            }
            let mut s = u64_to_string(major as u64);
            s.append(".");
            let minor_s = u64_to_string(minor as u64);
            s.append(minor_s.as_str());
            s.append(".");
            let patch_s = u64_to_string(patch as u64);
            s.append(patch_s.as_str());
            proof {
                assert("."@ =~= seq!['.']);
                assert(s@ =~= version_text(major as int, minor as int, patch as int));
            }
            VersionSer { version: s }
        }
    }
}

/// The text of a color record: `#` followed by the four channel bytes in
/// lowercase hexadecimal.
pub open spec fn color_hex_text(r: int, g: int, b: int, a: int) -> Seq<char> {
    seq!['#'] + hex_byte_digits(r) + hex_byte_digits(g) + hex_byte_digits(b) + hex_byte_digits(a)
}

impl ColorSer {
    /// Build the record from the four 8-bit color channels.
    pub fn from_rgba8(r: u8, g: u8, b: u8, a: u8) -> (c: ColorSer)
        ensures
            c.hex@ == color_hex_text(r as int, g as int, b as int, a as int),
    {
        proof {
            reveal_strlit("#");
        }
        let mut s = String::from_str("#");
        push_hex_byte(&mut s, r);
        push_hex_byte(&mut s, g);
        push_hex_byte(&mut s, b);
        push_hex_byte(&mut s, a);
        proof {
            assert("#"@ =~= seq!['#']);
            assert(s@ =~= color_hex_text(r as int, g as int, b as int, a as int));
        }
        ColorSer { hex: s }
    }
}

/// What a parameter may be cast from, as the host reads it: anything, one
/// concrete value (by representation, with its documentation), any value of
/// one type (by representation), or a union of alternatives.
#[derive(Debug)]
pub enum CastInfo {
    Any,
    Value(String, String),
    Type(String),
    Union(Vec<CastInfo>),
}

/// One accepted input of a parameter: its kind and a line of documentation.
#[derive(Debug)]
pub struct CastInfoSer {
    pub kind: String,
    pub docs: String,
}

/// One parameter of a function: its name, its documentation, and the inputs
/// it accepts.
#[derive(Debug)]
pub struct ParamSer {
    pub name: String,
    pub docs: String,
    pub params: Vec<CastInfoSer>,
}

/// A function: its printed representation and its parameters, when it has a
/// parameter list.
#[derive(Debug)]
pub struct FuncSer {
    pub repr: String,
    pub params: Option<Vec<ParamSer>>,
}

/// A parameter as handed in by the host: name, documentation, and what it
/// accepts.
#[derive(Debug)]
pub struct ParamRecord {
    pub name: String,
    pub docs: String,
    pub input: CastInfo,
}

/// The (kind, docs) rows a cast description flattens to: one row per
/// non-union alternative, in order.
pub open spec fn cast_info_rows(ci: CastInfo) -> Seq<(Seq<char>, Seq<char>)>
    decreases ci,
{
    match ci {
        CastInfo::Any => seq![("any"@, "Any value is okay"@)],
        CastInfo::Value(repr, docs) => seq![(repr@, docs@)],
        CastInfo::Type(repr) => seq![(repr@, "Any value of this type"@)],
        CastInfo::Union(alts) => cast_info_rows_seq(alts@),
    }
}

/// The rows of a list of alternatives, in order.
pub open spec fn cast_info_rows_seq(s: Seq<CastInfo>) -> Seq<(Seq<char>, Seq<char>)>
    decreases s,
{
    if s.len() == 0 {
        Seq::empty()
    } else {
        cast_info_rows(s[0]) + cast_info_rows_seq(s.drop_first())
    }
}

/// The values of a row list.
pub open spec fn cast_ser_rows(s: Seq<CastInfoSer>) -> Seq<(Seq<char>, Seq<char>)> {
    s.map_values(|c: CastInfoSer| (c.kind@, c.docs@))
}

/// Flatten a cast description into its accepted inputs, one record per
/// non-union alternative, in order.
pub fn cast_info_to_types(cast_info: &CastInfo) -> (r: Vec<CastInfoSer>)
    ensures
        cast_ser_rows(r@) == cast_info_rows(*cast_info),
    decreases *cast_info,
{
    match cast_info {
        CastInfo::Any => {
            let r = vec![
                CastInfoSer {
                    kind: String::from_str("any"),
                    docs: String::from_str("Any value is okay"),
                },
            ];
            proof {
                assert(cast_ser_rows(r@) =~= cast_info_rows(*cast_info));
            }
            r
        },
        CastInfo::Value(repr, docs) => {
            let r = vec![CastInfoSer { kind: repr.clone(), docs: docs.clone() }];
            proof {
                assert(cast_ser_rows(r@) =~= cast_info_rows(*cast_info));
            }
            r
        },
        CastInfo::Type(repr) => {
            let r = vec![
                CastInfoSer {
                    kind: repr.clone(),
                    docs: String::from_str("Any value of this type"),
                },
            ];
            proof {
                assert(cast_ser_rows(r@) =~= cast_info_rows(*cast_info));
            }
            r
        },
        CastInfo::Union(alts) => cast_union_to_types(alts),
    }
}

/// Flatten a union's alternatives in order.
fn cast_union_to_types(alts: &Vec<CastInfo>) -> (r: Vec<CastInfoSer>)
    ensures
        cast_ser_rows(r@) == cast_info_rows_seq(alts@),
    decreases *alts,
{
    let mut r: Vec<CastInfoSer> = Vec::new();
    let mut i: usize = 0;
    while i < alts.len()
        invariant
            0 <= i <= alts@.len(),
            cast_ser_rows(r@) == cast_info_rows_seq(alts@.subrange(0, i as int)),
        decreases alts@.len() - i,
    {
        proof {
            broadcast use vstd::std_specs::vec::axiom_vec_index_decreases;

            assert(decreases_to!(*alts => alts[i as int]));
        }
        let mut sub = cast_info_to_types(&alts[i]);
        let ghost r_before = r@;
        let ghost sub_view = sub@;
        r.append(&mut sub);
        proof {
            assert(cast_ser_rows(r@) =~= cast_ser_rows(r_before) + cast_ser_rows(sub_view));
            lemma_cast_info_rows_seq_snoc(alts@, i as int);
            assert(cast_ser_rows(r@) =~= cast_info_rows_seq(alts@.subrange(0, i + 1)));
        }
        i = i + 1;
    }
    proof {
        assert(alts@.subrange(0, alts@.len() as int) =~= alts@);
    }
    r
}

/// Folding one more alternative appends its rows.
proof fn lemma_cast_info_rows_seq_snoc(s: Seq<CastInfo>, i: int)
    requires
        0 <= i < s.len(),
    ensures
        cast_info_rows_seq(s.subrange(0, i + 1)) == cast_info_rows_seq(s.subrange(0, i))
            + cast_info_rows(s[i]),
    decreases i,
{
    let a = s.subrange(0, i + 1);
    let b = s.subrange(0, i);
    if i == 0 {
        assert(a.len() == 1);
        assert(a[0] == s[0]);
        assert(a.drop_first() =~= Seq::<CastInfo>::empty());
        assert(b =~= Seq::<CastInfo>::empty());
        assert(cast_info_rows_seq(a) == cast_info_rows(a[0]) + cast_info_rows_seq(
            a.drop_first(),
        ));
        assert(cast_info_rows_seq(a.drop_first()) =~= Seq::<(Seq<char>, Seq<char>)>::empty());
        assert(cast_info_rows_seq(b) =~= Seq::<(Seq<char>, Seq<char>)>::empty());
        assert(cast_info_rows_seq(a) =~= cast_info_rows_seq(b) + cast_info_rows(s[i]));
    } else {
        lemma_cast_info_rows_seq_snoc(s.drop_first(), i - 1);
        assert(a[0] == s[0]);
        assert(b[0] == s[0]);
        assert(a.drop_first() =~= s.drop_first().subrange(0, i));
        assert(b.drop_first() =~= s.drop_first().subrange(0, i - 1));
        assert(s.drop_first()[i - 1] == s[i]);
        assert(cast_info_rows_seq(a) == cast_info_rows(s[0]) + cast_info_rows_seq(
            a.drop_first(),
        ));
        assert(cast_info_rows_seq(b) == cast_info_rows(s[0]) + cast_info_rows_seq(
            b.drop_first(),
        ));
        assert(cast_info_rows_seq(a) =~= cast_info_rows_seq(b) + cast_info_rows(s[i]));
    }
}

/// The value of one parameter record after flattening.
pub ghost struct ParamValue {
    pub name: Seq<char>,
    pub docs: Seq<char>,
    pub rows: Seq<(Seq<char>, Seq<char>)>,
}

/// The value a parameter record flattens to.
pub open spec fn param_value(p: ParamRecord) -> ParamValue {
    ParamValue { name: p.name@, docs: p.docs@, rows: cast_info_rows(p.input) }
}

/// The value of a flattened parameter.
pub open spec fn param_ser_value(p: ParamSer) -> ParamValue {
    ParamValue { name: p.name@, docs: p.docs@, rows: cast_ser_rows(p.params@) }
}

/// The values of a list of parameter records.
pub open spec fn param_values(s: Seq<ParamRecord>) -> Seq<ParamValue> {
    s.map_values(|q: ParamRecord| param_value(q))
}

/// The values of a list of flattened parameters.
pub open spec fn param_ser_values(s: Seq<ParamSer>) -> Seq<ParamValue> {
    s.map_values(|p: ParamSer| param_ser_value(p))
}

impl FuncSer {
    /// Build a function record from its printed representation and its
    /// parameters, when it has a parameter list: each parameter keeps its
    /// name and documentation, and its cast description is flattened.
    pub fn from_parts(repr: String, params: Option<Vec<ParamRecord>>) -> (r: FuncSer)
        ensures
            r.repr@ == repr@,
            r.params is Some <==> params is Some,
            r.params matches Some(ps) ==> params matches Some(qs) && param_ser_values(ps@)
                == param_values(qs@),
    {
        match params {
            None => FuncSer { repr, params: None },
            Some(qs) => {
                let mut ps: Vec<ParamSer> = Vec::new();
                let mut i: usize = 0;
                while i < qs.len()
                    invariant
                        0 <= i <= qs@.len(),
                        param_ser_values(ps@) == param_values(qs@.subrange(0, i as int)),
                    decreases qs@.len() - i,
                {
                    let q = &qs[i];
                    let flat = cast_info_to_types(&q.input);
                    let ghost ps_before = ps@;
                    ps.push(ParamSer { name: q.name.clone(), docs: q.docs.clone(), params: flat });
                    proof {
                        let pushed = ps@.last();
                        assert(ps@ == ps_before.push(pushed));
                        assert(param_ser_values(ps_before).len() == ps_before.len());
                        assert(param_values(qs@.subrange(0, i as int)).len() == i);
                        assert(ps_before.len() == i);
                        assert(param_ser_value(pushed) == param_value(qs@[i as int]));
                        assert forall|k: int| 0 <= k < ps@.len() implies param_ser_values(ps@)[k]
                            == param_values(qs@.subrange(0, i + 1))[k] by {
                            assert(param_ser_values(ps@)[k] == param_ser_value(ps@[k]));
                            assert(param_values(qs@.subrange(0, i + 1))[k] == param_value(
                                qs@.subrange(0, i + 1)[k],
                            ));
                            assert(qs@.subrange(0, i + 1)[k] == qs@[k]);
                            if k < i {
                                assert(ps@[k] == ps_before[k]);
                                assert(param_ser_values(ps_before)[k] == param_values(
                                    qs@.subrange(0, i as int),
                                )[k]);
                                assert(param_ser_values(ps_before)[k] == param_ser_value(
                                    ps_before[k],
                                ));
                                assert(param_values(qs@.subrange(0, i as int))[k] == param_value(
                                    qs@.subrange(0, i as int)[k],
                                ));
                                assert(qs@.subrange(0, i as int)[k] == qs@[k]);
                            } else {
                                assert(ps@[k] == pushed);
                            }
                        }
                        assert(param_ser_values(ps@) =~= param_values(qs@.subrange(0, i + 1)));
                    }
                    i = i + 1;
                }
                proof {
                    assert(qs@.subrange(0, qs@.len() as int) =~= qs@);
                }
                FuncSer { repr, params: Some(ps) }
            },
        }
    }
}

} // verus!
