//! Assembly of the symbol catalogue.
//!
//! The editor's symbol picker is fed from a catalogue of entries: one per
//! symbol variant exported by the compiler's symbol module, one per math
//! operator, and one per spacing command. Each entry carries the symbol
//! text, its Unicode name, its catalogue name, an input shorthand if one
//! exists, its math class, and the LaTeX command that produces it. The
//! compiler-owned values (the symbol module's scope, the shorthand tables)
//! are handed in as plain records and lists; the Unicode name and math
//! class of a character come through the trusted bridges.

use vstd::prelude::*;
use vstd::slice::slice_subrange;
use vstd::string::StrSliceExecFns;
use vstd::string::StringExecFns;

use crate::bridge::MathClass;
use crate::bridge::char_to_string;
use crate::bridge::lookup_math_class;
use crate::bridge::math_class_of;
use crate::bridge::unicode_char_name;
use crate::bridge::unicode_name_of;
use crate::text::find_byte;
use crate::text::find_byte_from;
use crate::text::hex_parses;
use crate::text::lemma_find_byte_in_range;
use crate::text::match_at;
use crate::text::strip_leading;
use crate::text::strip_leading_pos;
use crate::text::trim_ws;
use crate::text::trim_ws_bounds;
use crate::text::u32_from_hex;

verus! {

/// One entry of the symbol catalogue.
#[allow(non_snake_case)]
#[derive(Debug)]
pub struct SymbolData {
    pub sym: String,
    pub unicName: String,
    pub name: String,
    pub shorthand: Option<String>,
    pub mathClass: String,
    pub latexName: String,
}

/// The plain value of a catalogue entry.
pub ghost struct SymbolValue {
    pub sym: Seq<char>,
    pub unic_name: Seq<char>,
    pub name: Seq<char>,
    pub shorthand: Option<Seq<char>>,
    pub math_class: Seq<char>,
    pub latex_name: Seq<char>,
}

/// The value of a catalogue entry.
pub open spec fn symbol_data_value(d: SymbolData) -> SymbolValue {
    SymbolValue {
        sym: d.sym@,
        unic_name: d.unicName@,
        name: d.name@,
        shorthand: match d.shorthand {
            Option::Some(s) => Option::Some(s@),
            Option::None => Option::None,
        },
        math_class: d.mathClass@,
        latex_name: d.latexName@,
    }
}

/// The values of a list of entries.
pub open spec fn symbol_values(s: Seq<SymbolData>) -> Seq<SymbolValue> {
    s.map_values(|d: SymbolData| symbol_data_value(d))
}

/// The texts of a list of strings.
pub open spec fn str_list(v: Seq<String>) -> Seq<Seq<char>> {
    v.map_values(|s: String| s@)
}

/// The texts of a list of string pairs.
pub open spec fn str_pairs(v: Seq<(String, String)>) -> Seq<(Seq<char>, Seq<char>)> {
    v.map_values(|p: (String, String)| (p.0@, p.1@))
}

/// The keys of a pair table.
pub open spec fn table_keys(t: Seq<(Seq<char>, Seq<char>)>) -> Seq<Seq<char>> {
    t.map_values(|p: (Seq<char>, Seq<char>)| p.0)
}

/// Whether a text occurs in a list of texts.
pub open spec fn str_in(l: Seq<Seq<char>>, s: Seq<char>) -> bool {
    exists|i: int| 0 <= i < l.len() && l[i] == s
}

/// The value of the first table row at or after `i` whose key matches, or
/// the empty text when none does.
pub open spec fn lookup_str_from(t: Seq<(Seq<char>, Seq<char>)>, key: Seq<char>, i: int) -> Seq<
    char,
>
    decreases t.len() + 1 - i,
{
    if i < 0 || i >= t.len() {
        Seq::empty()
    } else if t[i].0 == key {
        t[i].1
    } else {
        lookup_str_from(t, key, i + 1)
    }
}

/// The value of the first table row whose key matches, or the empty text.
pub open spec fn lookup_str(t: Seq<(Seq<char>, Seq<char>)>, key: Seq<char>) -> Seq<char> {
    lookup_str_from(t, key, 0)
}

/// Appending a text to a list appends its view.
proof fn lemma_str_list_push(v: Seq<String>, x: String)
    ensures
        str_list(v.push(x)) == str_list(v).push(x@),
{
    assert(str_list(v.push(x))
        =~= str_list(v).push(x@));
}

/// Appending an entry to a list appends its value.
proof fn lemma_symbol_values_push(v: Seq<SymbolData>, x: SymbolData)
    ensures
        symbol_values(v.push(x)) == symbol_values(v).push(symbol_data_value(x)),
{
    assert(symbol_values(v.push(x)) =~= symbol_values(v).push(symbol_data_value(x)));
}

/// Whether a list of strings holds a given text, by linear scan.
fn contains_str(v: &Vec<String>, s: &String) -> (r: bool)
    ensures
        r == str_in(str_list(v@), s@),
{
    let mut i: usize = 0;
    while i < v.len()
        invariant
            0 <= i <= v@.len(),
            forall|j: int| 0 <= j < i ==> str_list(v@)[j] != s@,
        decreases v@.len() - i,
    {
        if v[i] == *s {
            assert(str_list(v@)[i as int] == s@);
            return true;
        }
        i = i + 1;
    }
    false
}

/// The table value for a key, by linear scan; the empty string when the
/// key is missing.
pub fn lookup_latex(t: &Vec<(String, String)>, key: &String) -> (r: String)
    ensures
        r@ == lookup_str(str_pairs(t@), key@),
{
    let rows = t.len();
    let mut i: usize = 0;
    while i < rows
        invariant
            0 <= i <= rows,
            rows == t@.len(),
            lookup_str_from(str_pairs(t@), key@, 0) == lookup_str_from(
                str_pairs(t@),
                key@,
                i as int,
            ),
        decreases rows - i,
    {
        let e = &t[i];
        if e.0 == *key {
            assert(str_pairs(t@)[i as int].0 == key@);
            return e.1.clone();
        }
        assert(str_pairs(t@)[i as int].0 != key@);
        i = i + 1;
    }
    String::new()
}

/// The value of one operator entry: the name is both the symbol text and
/// the catalogue name, there is no Unicode name and no shorthand, and the
/// LaTeX command comes from the operator table.
pub open spec fn op_value(
    name: Seq<char>,
    math_class: Seq<char>,
    table: Seq<(Seq<char>, Seq<char>)>,
) -> SymbolValue {
    SymbolValue {
        sym: name,
        unic_name: Seq::empty(),
        name,
        shorthand: Option::None,
        math_class,
        latex_name: lookup_str(table, name),
    }
}

/// Build one operator entry.
pub fn make_op(name: &str, math_class: &str, op_latex: &Vec<(String, String)>) -> (r: SymbolData)
    ensures
        symbol_data_value(r) == op_value(name@, math_class@, str_pairs(op_latex@)),
{
    let key = name.to_owned();
    SymbolData {
        sym: name.to_owned(),
        unicName: String::new(),
        name: name.to_owned(),
        shorthand: None,
        mathClass: math_class.to_owned(),
        latexName: lookup_latex(op_latex, &key),
    }
}

/// The accumulating state while operator entries are collected: the names
/// already emitted and the entries so far.
pub ghost struct OpState {
    pub seen: Seq<Seq<char>>,
    pub ops: Seq<SymbolValue>,
}

/// One collection step: a name on the skip list or already emitted
/// contributes nothing; any other name is emitted as an operator entry.
pub open spec fn op_step(
    st: OpState,
    name: Seq<char>,
    skip: Seq<Seq<char>>,
    table: Seq<(Seq<char>, Seq<char>)>,
) -> OpState {
    if str_in(skip, name) || str_in(st.seen, name) {
        st
    } else {
        OpState { seen: st.seen.push(name), ops: st.ops.push(op_value(name, "op"@, table)) }
    }
}

/// The state after collecting the first `i` names of a list.
pub open spec fn op_fold(
    names: Seq<Seq<char>>,
    i: int,
    st: OpState,
    skip: Seq<Seq<char>>,
    table: Seq<(Seq<char>, Seq<char>)>,
) -> OpState
    decreases i,
{
    if i <= 0 {
        st
    } else {
        op_step(op_fold(names, i - 1, st, skip, table), names[i - 1], skip, table)
    }
}

/// Collect operator entries for a list of names, skipping names on the
/// skip list and names already emitted.
fn push_ops(
    names: &Vec<String>,
    skip: &Vec<String>,
    seen: &mut Vec<String>,
    ops: &mut Vec<SymbolData>,
    op_latex: &Vec<(String, String)>,
)
    ensures
        ({
            let st = op_fold(
                str_list(names@),
                names@.len() as int,
                OpState { seen: str_list(old(seen)@), ops: symbol_values(old(ops)@) },
                str_list(skip@),
                str_pairs(op_latex@),
            );
            &&& str_list(final(seen)@) == st.seen
            &&& symbol_values(final(ops)@) == st.ops
        }),
{
    let ghost st0 = OpState { seen: str_list(seen@), ops: symbol_values(ops@) };
    let mut i: usize = 0;
    while i < names.len()
        invariant
            0 <= i <= names@.len(),
            ({
                let st = op_fold(
                    str_list(names@),
                    i as int,
                    st0,
                    str_list(skip@),
                    str_pairs(op_latex@),
                );
                &&& str_list(seen@) == st.seen
                &&& symbol_values(ops@) == st.ops
            }),
        decreases names@.len() - i,
    {
        let name = &names[i];
        proof {
            assert(str_list(names@)[i as int] == name@);
        }
        let skipped = contains_str(skip, name);
        let dup = contains_str(seen, name);
        if !skipped && !dup {
            let ghost seen_before = seen@;
            let ghost ops_before = ops@;
            let entry = make_op(name.as_str(), "op", op_latex);
            seen.push(name.clone());
            ops.push(entry);
            proof {
                lemma_str_list_push(seen_before, seen@.last());
                lemma_symbol_values_push(ops_before, ops@.last());
                assert(seen@ == seen_before.push(seen@.last()));
                assert(ops@ == ops_before.push(ops@.last()));
            }
        }
        i = i + 1;
    }
}

/// The differential operator names.
pub open spec fn dif_ops() -> Seq<Seq<char>> {
    seq!["dif"@, "Dif"@]
}

/// The differential operator names, as strings.
pub fn dif_ops_vec() -> (r: Vec<String>)
    ensures
        str_list(r@) == dif_ops(),
{
    let r = vec![String::from_str("dif"), String::from_str("Dif")];
    proof {
        assert(str_list(r@) =~= dif_ops());
    }
    r
}

/// The operators rendered with limits.
pub open spec fn limit_ops() -> Seq<Seq<char>> {
    seq![
        "det"@,
        "gcd"@,
        "lcm"@,
        "inf"@,
        "lim"@,
        "liminf"@,
        "limsup"@,
        "max"@,
        "min"@,
        "Pr"@,
        "sup"@,
    ]
}

/// The operators rendered with limits, as strings.
pub fn limit_ops_vec() -> (r: Vec<String>)
    ensures
        str_list(r@) == limit_ops(),
{
    let r = vec![
        String::from_str("det"),
        String::from_str("gcd"),
        String::from_str("lcm"),
        String::from_str("inf"),
        String::from_str("lim"),
        String::from_str("liminf"),
        String::from_str("limsup"),
        String::from_str("max"),
        String::from_str("min"),
        String::from_str("Pr"),
        String::from_str("sup"),
    ];
    proof {
        assert(str_list(r@) =~= limit_ops());
    }
    r
}

/// The spacing commands and their descriptions.
pub open spec fn spacing_table() -> Seq<(Seq<char>, Seq<char>)> {
    seq![
        ("thin"@, "thin (1/6 em)"@),
        ("med"@, "medium (2/9 em)"@),
        ("thick"@, "thick (5/18 em)"@),
        ("quad"@, "quad (1 em)"@),
        ("wide"@, "wide (2 em)"@),
    ]
}

/// The spacing commands and their descriptions, as strings.
pub fn spacings_vec() -> (r: Vec<(String, String)>)
    ensures
        str_pairs(r@) == spacing_table(),
{
    let r = vec![
        (String::from_str("thin"), String::from_str("thin (1/6 em)")),
        (String::from_str("med"), String::from_str("medium (2/9 em)")),
        (String::from_str("thick"), String::from_str("thick (5/18 em)")),
        (String::from_str("quad"), String::from_str("quad (1 em)")),
        (String::from_str("wide"), String::from_str("wide (2 em)")),
    ];
    proof {
        assert(str_pairs(r@) =~= spacing_table());
    }
    r
}

/// The operator names and the LaTeX commands that render them.
pub open spec fn op_latex_table() -> Seq<(Seq<char>, Seq<char>)> {
    seq![
        ("arccos"@, "arccos"@),
        ("arcsin"@, "arcsin"@),
        ("arctan"@, "arctan"@),
        ("arg"@, "arg"@),
        ("cos"@, "cos"@),
        ("cosh"@, "cosh"@),
        ("cot"@, "cot"@),
        ("coth"@, "coth"@),
        ("csc"@, "csc"@),
        ("csch"@, "operatorname{csch}"@),
        ("ctg"@, "ctg"@),
        ("deg"@, "deg"@),
        ("det"@, "det"@),
        ("dif"@, "partial"@),
        ("Dif"@, "partial"@),
        ("dim"@, "dim"@),
        ("exp"@, "exp"@),
        ("gcd"@, "gcd"@),
        ("hom"@, "hom"@),
        ("id"@, "operatorname{id}"@),
        ("im"@, "operatorname{im}"@),
        ("inf"@, "inf"@),
        ("ker"@, "ker"@),
        ("lcm"@, "operatorname{lcm}"@),
        ("lg"@, "lg"@),
        ("lim"@, "lim"@),
        ("liminf"@, "liminf"@),
        ("limsup"@, "limsup"@),
        ("ln"@, "ln"@),
        ("log"@, "log"@),
        ("max"@, "max"@),
        ("min"@, "min"@),
        ("mod"@, "bmod"@),
        ("Pr"@, "Pr"@),
        ("sec"@, "sec"@),
        ("sech"@, "operatorname{sech}"@),
        ("sin"@, "sin"@),
        ("sinc"@, "operatorname{sinc}"@),
        ("sinh"@, "sinh"@),
        ("sup"@, "sup"@),
        ("tan"@, "tan"@),
        ("tanh"@, "tanh"@),
        ("tg"@, "operatorname{tg}"@),
        ("tr"@, "operatorname{tr}"@),
    ]
}

/// The operator names and their LaTeX commands, as strings.
pub fn op_latex_pairs() -> (r: Vec<(String, String)>)
    ensures
        str_pairs(r@) == op_latex_table(),
{
    let r = vec![
        (String::from_str("arccos"), String::from_str("arccos")),
        (String::from_str("arcsin"), String::from_str("arcsin")),
        (String::from_str("arctan"), String::from_str("arctan")),
        (String::from_str("arg"), String::from_str("arg")),
        (String::from_str("cos"), String::from_str("cos")),
        (String::from_str("cosh"), String::from_str("cosh")),
        (String::from_str("cot"), String::from_str("cot")),
        (String::from_str("coth"), String::from_str("coth")),
        (String::from_str("csc"), String::from_str("csc")),
        (String::from_str("csch"), String::from_str("operatorname{csch}")),
        (String::from_str("ctg"), String::from_str("ctg")),
        (String::from_str("deg"), String::from_str("deg")),
        (String::from_str("det"), String::from_str("det")),
        (String::from_str("dif"), String::from_str("partial")),
        (String::from_str("Dif"), String::from_str("partial")),
        (String::from_str("dim"), String::from_str("dim")),
        (String::from_str("exp"), String::from_str("exp")),
        (String::from_str("gcd"), String::from_str("gcd")),
        (String::from_str("hom"), String::from_str("hom")),
        (String::from_str("id"), String::from_str("operatorname{id}")),
        (String::from_str("im"), String::from_str("operatorname{im}")),
        (String::from_str("inf"), String::from_str("inf")),
        (String::from_str("ker"), String::from_str("ker")),
        (String::from_str("lcm"), String::from_str("operatorname{lcm}")),
        (String::from_str("lg"), String::from_str("lg")),
        (String::from_str("lim"), String::from_str("lim")),
        (String::from_str("liminf"), String::from_str("liminf")),
        (String::from_str("limsup"), String::from_str("limsup")),
        (String::from_str("ln"), String::from_str("ln")),
        (String::from_str("log"), String::from_str("log")),
        (String::from_str("max"), String::from_str("max")),
        (String::from_str("min"), String::from_str("min")),
        (String::from_str("mod"), String::from_str("bmod")),
        (String::from_str("Pr"), String::from_str("Pr")),
        (String::from_str("sec"), String::from_str("sec")),
        (String::from_str("sech"), String::from_str("operatorname{sech}")),
        (String::from_str("sin"), String::from_str("sin")),
        (String::from_str("sinc"), String::from_str("operatorname{sinc}")),
        (String::from_str("sinh"), String::from_str("sinh")),
        (String::from_str("sup"), String::from_str("sup")),
        (String::from_str("tan"), String::from_str("tan")),
        (String::from_str("tanh"), String::from_str("tanh")),
        (String::from_str("tg"), String::from_str("operatorname{tg}")),
        (String::from_str("tr"), String::from_str("operatorname{tr}")),
    ];
    proof {
        assert(str_pairs(r@) =~= op_latex_table());
    }
    r
}

/// The value of one spacing entry: the command is the symbol text, the
/// description is the catalogue name.
pub open spec fn spacing_value(name: Seq<char>, desc: Seq<char>) -> SymbolValue {
    SymbolValue {
        sym: name,
        unic_name: Seq::empty(),
        name: desc,
        shorthand: Option::None,
        math_class: "spacing"@,
        latex_name: Seq::empty(),
    }
}

/// The spacing entries.
pub open spec fn spacing_values() -> Seq<SymbolValue> {
    spacing_table().map_values(|p: (Seq<char>, Seq<char>)| spacing_value(p.0, p.1))
}

/// All operator and spacing entries, in catalogue order: the differential
/// operators, the limit operators, the remaining operators of the LaTeX
/// table (names already covered or reserved for spacing skipped), then the
/// spacing entries.
pub open spec fn build_op_entries_values(table: Seq<(Seq<char>, Seq<char>)>) -> Seq<SymbolValue> {
    let skip0 = Seq::<Seq<char>>::empty();
    let st0 = OpState { seen: Seq::empty(), ops: Seq::empty() };
    let st1 = op_fold(dif_ops(), dif_ops().len() as int, st0, skip0, table);
    let st2 = op_fold(limit_ops(), limit_ops().len() as int, st1, skip0, table);
    let special = dif_ops() + limit_ops() + table_keys(spacing_table());
    let st3 = op_fold(
        table_keys(op_latex_table()),
        table_keys(op_latex_table()).len() as int,
        st2,
        special,
        table,
    );
    st3.ops + spacing_values()
}

/// Build the operator and spacing entries of the catalogue, looking LaTeX
/// commands up in the given operator table.
pub fn build_op_entries(op_latex: &Vec<(String, String)>) -> (r: Vec<SymbolData>)
    ensures
        symbol_values(r@) == build_op_entries_values(str_pairs(op_latex@)),
{
    let mut seen: Vec<String> = Vec::new();
    let mut ops: Vec<SymbolData> = Vec::new();
    let empty_skip: Vec<String> = Vec::new();
    proof {
        assert(str_list(seen@) =~= Seq::<Seq<char>>::empty());
        assert(symbol_values(ops@) =~= Seq::<SymbolValue>::empty());
        assert(str_list(empty_skip@) =~= Seq::<Seq<char>>::empty());
    }
    let dif = dif_ops_vec();
    let limit = limit_ops_vec();
    push_ops(&dif, &empty_skip, &mut seen, &mut ops, op_latex);
    push_ops(&limit, &empty_skip, &mut seen, &mut ops, op_latex);

    // The skip list: everything already covered plus the spacing commands.
    let mut special: Vec<String> = Vec::new();
    let mut d = dif_ops_vec();
    let mut l = limit_ops_vec();
    special.append(&mut d);
    special.append(&mut l);
    let spacings = spacings_vec();
    let mut si: usize = 0;
    while si < spacings.len()
        invariant
            0 <= si <= spacings@.len(),
            str_list(special@) == dif_ops() + limit_ops() + table_keys(
                str_pairs(spacings@.subrange(0, si as int)),
            ),
            str_pairs(spacings@) == spacing_table(),
        decreases spacings@.len() - si,
    {
        let ghost special_before = special@;
        special.push(spacings[si].0.clone());
        proof {
            lemma_str_list_push(special_before, special@.last());
            assert(special@ == special_before.push(special@.last()));
            assert(str_list(special@) =~= dif_ops() + limit_ops() + table_keys(
                str_pairs(spacings@.subrange(0, si + 1)),
            ));
        }
        si = si + 1;
    }
    proof {
        assert(spacings@.subrange(0, spacings@.len() as int) =~= spacings@);
        assert(str_list(special@) =~= dif_ops() + limit_ops() + table_keys(spacing_table()));
    }

    // The operator names of the LaTeX table, in table order.
    let table = op_latex_pairs();
    let mut keys: Vec<String> = Vec::new();
    let mut ki: usize = 0;
    while ki < table.len()
        invariant
            0 <= ki <= table@.len(),
            str_list(keys@) == table_keys(str_pairs(table@.subrange(0, ki as int))),
            str_pairs(table@) == op_latex_table(),
        decreases table@.len() - ki,
    {
        let ghost keys_before = keys@;
        keys.push(table[ki].0.clone());
        proof {
            lemma_str_list_push(keys_before, keys@.last());
            assert(keys@ == keys_before.push(keys@.last()));
            assert(str_list(keys@) =~= table_keys(str_pairs(table@.subrange(0, ki + 1))));
        }
        ki = ki + 1;
    }
    proof {
        assert(table@.subrange(0, table@.len() as int) =~= table@);
        assert(str_list(keys@) =~= table_keys(op_latex_table()));
    }
    push_ops(&keys, &special, &mut seen, &mut ops, op_latex);

    // The spacing entries close the catalogue.
    let mut pi: usize = 0;
    let ghost ops_after_folds = symbol_values(ops@);
    while pi < spacings.len()
        invariant
            0 <= pi <= spacings@.len(),
            symbol_values(ops@) == ops_after_folds + spacing_values().subrange(0, pi as int),
            str_pairs(spacings@) == spacing_table(),
        decreases spacings@.len() - pi,
    {
        let entry = &spacings[pi];
        let ghost ops_before = ops@;
        ops.push(
            SymbolData {
                sym: entry.0.clone(),
                unicName: String::new(),
                name: entry.1.clone(),
                shorthand: None,
                mathClass: String::from_str("spacing"),
                latexName: String::new(),
            },
        );
        proof {
            lemma_symbol_values_push(ops_before, ops@.last());
            assert(ops@ == ops_before.push(ops@.last()));
            assert(symbol_data_value(ops@.last()) == spacing_values()[pi as int]);
            assert(symbol_values(ops@) =~= ops_after_folds + spacing_values().subrange(
                0,
                pi + 1,
            ));
        }
        pi = pi + 1;
    }
    proof {
        assert(spacing_values().subrange(0, spacing_values().len() as int) =~= spacing_values());
        assert(symbol_values(ops@) =~= build_op_entries_values(str_pairs(op_latex@)));
    }
    ops
}


/// The texts of a char-keyed table.
pub open spec fn char_pairs(v: Seq<(char, String)>) -> Seq<(char, Seq<char>)> {
    v.map_values(|p: (char, String)| (p.0, p.1@))
}

/// The texts of a shorthand table.
pub open spec fn shorthand_pairs(v: Seq<(String, char)>) -> Seq<(Seq<char>, char)> {
    v.map_values(|p: (String, char)| (p.0@, p.1))
}

/// The value of the first char-keyed row at or after `i` whose key
/// matches, or the empty text when none does.
pub open spec fn lookup_char_from(t: Seq<(char, Seq<char>)>, key: char, i: int) -> Seq<char>
    decreases t.len() + 1 - i,
{
    if i < 0 || i >= t.len() {
        Seq::empty()
    } else if t[i].0 == key {
        t[i].1
    } else {
        lookup_char_from(t, key, i + 1)
    }
}

/// The text of the first shorthand row at or after `i` whose character
/// matches, if any.
pub open spec fn shorthand_from(t: Seq<(Seq<char>, char)>, key: char, i: int) -> Option<Seq<char>>
    decreases t.len() + 1 - i,
{
    if i < 0 || i >= t.len() {
        Option::None
    } else if t[i].1 == key {
        Option::Some(t[i].0)
    } else {
        shorthand_from(t, key, i + 1)
    }
}

/// The table text for a character, by linear scan; empty when missing.
pub fn lookup_char_text(t: &Vec<(char, String)>, key: char) -> (r: String)
    ensures
        r@ == lookup_char_from(char_pairs(t@), key, 0),
{
    let rows = t.len();
    let mut i: usize = 0;
    while i < rows
        invariant
            0 <= i <= rows,
            rows == t@.len(),
            lookup_char_from(char_pairs(t@), key, 0) == lookup_char_from(
                char_pairs(t@),
                key,
                i as int,
            ),
        decreases rows - i,
    {
        let e = &t[i];
        if e.0 == key {
            assert(char_pairs(t@)[i as int].0 == key);
            return e.1.clone();
        }
        assert(char_pairs(t@)[i as int].0 != key);
        i = i + 1;
    }
    String::new()
}

/// The shorthand that types a character, by linear scan, if the table has
/// one.
pub fn lookup_shorthand(t: &Vec<(String, char)>, key: char) -> (r: Option<String>)
    ensures
        match shorthand_from(shorthand_pairs(t@), key, 0) {
            Option::Some(text) => r matches Some(s) && s@ == text,
            Option::None => r is None,
        },
{
    let rows = t.len();
    let mut i: usize = 0;
    while i < rows
        invariant
            0 <= i <= rows,
            rows == t@.len(),
            shorthand_from(shorthand_pairs(t@), key, 0) == shorthand_from(
                shorthand_pairs(t@),
                key,
                i as int,
            ),
        decreases rows - i,
    {
        let e = &t[i];
        if e.1 == key {
            assert(shorthand_pairs(t@)[i as int].1 == key);
            return Some(e.0.clone());
        }
        assert(shorthand_pairs(t@)[i as int].1 != key);
        i = i + 1;
    }
    None
}

/// The rendering text of a math class.
pub open spec fn math_class_name(k: MathClass) -> Seq<char> {
    match k {
        MathClass::Normal => "Normal"@,
        MathClass::Alphabetic => "Alphabetic"@,
        MathClass::Binary => "Binary"@,
        MathClass::Closing => "Closing"@,
        MathClass::Diacritic => "Diacritic"@,
        MathClass::Fence => "Fence"@,
        MathClass::GlyphPart => "Glyph Part"@,
        MathClass::Large => "Large"@,
        MathClass::Opening => "Opening"@,
        MathClass::Punctuation => "Punctuation"@,
        MathClass::Relation => "Relation"@,
        MathClass::Space => "Space"@,
        MathClass::Unary => "Unary"@,
        MathClass::Vary => "Vary"@,
        MathClass::Special => "Special"@,
    }
}

/// The rendering text of a character's math class: the class name, or the
/// empty text for a character without one.
pub open spec fn math_class_text(mc: Option<MathClass>) -> Seq<char> {
    match mc {
        Option::Some(k) => math_class_name(k),
        Option::None => Seq::empty(),
    }
}

/// Render the math class of a character.
pub fn format_math_class(ch: char) -> (r: String)
    ensures
        r@ == math_class_text(math_class_of(ch)),
{
    match lookup_math_class(ch) {
        None => String::new(),
        Some(k) => match k {
            MathClass::Normal => String::from_str("Normal"),
            MathClass::Alphabetic => String::from_str("Alphabetic"),
            MathClass::Binary => String::from_str("Binary"),
            MathClass::Closing => String::from_str("Closing"),
            MathClass::Diacritic => String::from_str("Diacritic"),
            MathClass::Fence => String::from_str("Fence"),
            MathClass::GlyphPart => String::from_str("Glyph Part"),
            MathClass::Large => String::from_str("Large"),
            MathClass::Opening => String::from_str("Opening"),
            MathClass::Punctuation => String::from_str("Punctuation"),
            MathClass::Relation => String::from_str("Relation"),
            MathClass::Space => String::from_str("Space"),
            MathClass::Unary => String::from_str("Unary"),
            MathClass::Vary => String::from_str("Vary"),
            MathClass::Special => String::from_str("Special"),
        },
    }
}

/// One exported symbol variant, as handed in by the host: the base name of
/// the symbol, the variant name (possibly empty), and the symbol's text.
#[derive(Debug)]
pub struct SymbolVariant {
    pub base: String,
    pub variant: String,
    pub value: String,
}

/// The catalogue entry a symbol variant yields, if its text is non-empty:
/// the symbol text is the first character; the catalogue name is the base
/// name, or `base.variant` for a named variant; the Unicode name comes
/// from the name table or stays empty; a shorthand applies only to
/// one-character symbols, the math-mode table consulted before the markup
/// one; the math class is rendered from the class table; and the LaTeX
/// name comes from the char-keyed table or stays empty.
pub open spec fn symbol_entry_value(
    base: Seq<char>,
    variant: Seq<char>,
    value: Seq<char>,
    math_list: Seq<(Seq<char>, char)>,
    markup_list: Seq<(Seq<char>, char)>,
    latex_by_char: Seq<(char, Seq<char>)>,
) -> Option<SymbolValue> {
    if value.len() == 0 {
        Option::None
    } else {
        let ch = value[0];
        Option::Some(
            SymbolValue {
                sym: seq![ch],
                unic_name: match unicode_name_of(ch) {
                    Option::Some(n) => n,
                    Option::None => Seq::empty(),
                },
                name: if variant.len() == 0 {
                    base
                } else {
                    base + seq!['.'] + variant
                },
                shorthand: if value.len() == 1 {
                    match shorthand_from(math_list, ch, 0) {
                        Option::Some(s) => Option::Some(s),
                        Option::None => shorthand_from(markup_list, ch, 0),
                    }
                } else {
                    Option::None
                },
                math_class: math_class_text(math_class_of(ch)),
                latex_name: lookup_char_from(latex_by_char, ch, 0),
            },
        )
    }
}

/// Build the catalogue entry of one symbol variant; a variant with an
/// empty text yields nothing.
pub fn make_symbol_entry(
    base: &String,
    variant: &String,
    value: &String,
    math_shorthands: &Vec<(String, char)>,
    markup_shorthands: &Vec<(String, char)>,
    latex_by_char: &Vec<(char, String)>,
) -> (r: Option<SymbolData>)
    ensures
        match symbol_entry_value(
            base@,
            variant@,
            value@,
            shorthand_pairs(math_shorthands@),
            shorthand_pairs(markup_shorthands@),
            char_pairs(latex_by_char@),
        ) {
            Option::Some(v) => r matches Some(d) && symbol_data_value(d) == v,
            Option::None => r is None,
        },
{
    let char_count = value.as_str().unicode_len();
    if char_count == 0 {
        return None;
    }
    let ch = value.as_str().get_char(0);
    let sym = char_to_string(ch);
    let unic_name = match unicode_char_name(ch) {
        Some(n) => n,
        None => String::new(),
    };
    let name = if variant.as_str().is_empty() {
        base.clone()
    } else {
        proof {
            reveal_strlit(".");
        }
        let mut s = base.clone();
        s.append(".");
        s.append(variant.as_str());
        proof {
            assert("."@ =~= seq!['.']);
            assert(s@ =~= base@ + seq!['.'] + variant@);
        }
        s
    };
    let shorthand = if char_count == 1 {
        match lookup_shorthand(math_shorthands, ch) {
            Some(s) => Some(s),
            None => lookup_shorthand(markup_shorthands, ch),
        }
    } else {
        None
    };
    let math_class = format_math_class(ch);
    let latex_name = lookup_char_text(latex_by_char, ch);
    Some(
        SymbolData {
            sym,
            unicName: unic_name,
            name,
            shorthand,
            mathClass: math_class,
            latexName: latex_name,
        },
    )
}

/// The catalogue entries of the first `i` symbol variants, in order,
/// variants with empty texts skipped.
pub open spec fn symbol_entries_prefix(
    entries: Seq<(Seq<char>, Seq<char>, Seq<char>)>,
    i: int,
    math_list: Seq<(Seq<char>, char)>,
    markup_list: Seq<(Seq<char>, char)>,
    latex_by_char: Seq<(char, Seq<char>)>,
) -> Seq<SymbolValue>
    decreases i,
{
    if i <= 0 {
        Seq::empty()
    } else {
        let rest = symbol_entries_prefix(entries, i - 1, math_list, markup_list, latex_by_char);
        let e = entries[i - 1];
        match symbol_entry_value(e.0, e.1, e.2, math_list, markup_list, latex_by_char) {
            Option::Some(v) => rest.push(v),
            Option::None => rest,
        }
    }
}

/// The texts of a list of symbol variants.
pub open spec fn variant_texts(v: Seq<SymbolVariant>) -> Seq<(Seq<char>, Seq<char>, Seq<char>)> {
    v.map_values(|e: SymbolVariant| (e.base@, e.variant@, e.value@))
}

/// Build the catalogue entries of a module's symbol variants, in order;
/// variants with empty texts are skipped.
pub fn collect_symbols_from_module(
    entries: &Vec<SymbolVariant>,
    math_shorthands: &Vec<(String, char)>,
    markup_shorthands: &Vec<(String, char)>,
    latex_by_char: &Vec<(char, String)>,
) -> (r: Vec<SymbolData>)
    ensures
        symbol_values(r@) == symbol_entries_prefix(
            variant_texts(entries@),
            entries@.len() as int,
            shorthand_pairs(math_shorthands@),
            shorthand_pairs(markup_shorthands@),
            char_pairs(latex_by_char@),
        ),
{
    let mut r: Vec<SymbolData> = Vec::new();
    proof {
        assert(symbol_values(r@) =~= Seq::<SymbolValue>::empty());
    }
    let mut i: usize = 0;
    while i < entries.len()
        invariant
            0 <= i <= entries@.len(),
            symbol_values(r@) == symbol_entries_prefix(
                variant_texts(entries@),
                i as int,
                shorthand_pairs(math_shorthands@),
                shorthand_pairs(markup_shorthands@),
                char_pairs(latex_by_char@),
            ),
        decreases entries@.len() - i,
    {
        let e = &entries[i];
        proof {
            assert(variant_texts(entries@)[i as int] == (e.base@, e.variant@, e.value@));
        }
        match make_symbol_entry(
            &e.base,
            &e.variant,
            &e.value,
            math_shorthands,
            markup_shorthands,
            latex_by_char,
        ) {
            Some(d) => {
                let ghost r_before = r@;
                r.push(d);
                proof {
                    lemma_symbol_values_push(r_before, r@.last());
                    assert(r@ == r_before.push(r@.last()));
                }
            },
            None => {},
        }
        i = i + 1;
    }
    r
}


/// The bytes of a sequence read as characters, one to one. Exact for
/// ASCII text, which is all the math table's command names hold.
pub open spec fn ascii_chars(b: Seq<u8>) -> Seq<char> {
    b.map_values(|x: u8| x as char)
}

/// Read a byte slice as a string, one character per byte.
fn ascii_string(bytes: &[u8]) -> (r: String)
    ensures
        r@ == ascii_chars(bytes@),
{
    let mut r = String::new();
    let mut i: usize = 0;
    while i < bytes.len()
        invariant
            0 <= i <= bytes@.len(),
            r@ == ascii_chars(bytes@.subrange(0, i as int)),
        decreases bytes@.len() - i,
    {
        let c = bytes[i] as char;
        let cs = char_to_string(c);
        r.append(cs.as_str());
        proof {
            assert(r@ =~= ascii_chars(bytes@.subrange(0, i + 1)));
        }
        i = i + 1;
    }
    proof {
        assert(bytes@.subrange(0, bytes@.len() as int) =~= bytes@);
    }
    r
}

/// The bytes of the marker `\UnicodeMathSymbol{` that opens a table line.
pub open spec fn table_marker() -> Seq<u8> {
    seq![
        92u8,
        85u8,
        110u8,
        105u8,
        99u8,
        111u8,
        100u8,
        101u8,
        77u8,
        97u8,
        116u8,
        104u8,
        83u8,
        121u8,
        109u8,
        98u8,
        111u8,
        108u8,
        123u8,
    ]
}

/// Whether a code point is a Unicode scalar value.
pub open spec fn codepoint_ok(v: u32) -> bool {
    v < 0xD800 || (0xE000 <= v && v <= 0x10FFFF)
}

/// What one line of the math table contributes: after trimming, the line
/// must open with the marker; the code point is the hexadecimal field up
/// to the first closing brace, leading quotes stripped, and must be a
/// scalar value; the command name is the first braced field after it,
/// trimmed, leading backslashes stripped. Anything else contributes
/// nothing.
pub open spec fn table_line_parses(line: Seq<u8>) -> Option<(u32, Seq<char>)> {
    let t = trim_ws(line);
    if t.len() < 19 || t.subrange(0, 19) != table_marker() {
        Option::None
    } else {
        let rest = t.subrange(19, t.len() as int);
        match find_byte_from(rest, 125, 0) {
            Option::None => Option::None,
            Option::Some(cp_end) => {
                let cp_str = strip_leading(rest.subrange(0, cp_end), 34);
                match hex_parses(cp_str) {
                    Option::None => Option::None,
                    Option::Some(cp) => if !codepoint_ok(cp) {
                        Option::None
                    } else {
                        let after = rest.subrange(cp_end + 1, rest.len() as int);
                        match find_byte_from(after, 123, 0) {
                            Option::None => Option::None,
                            Option::Some(cs) => {
                                let body = after.subrange(cs + 1, after.len() as int);
                                match find_byte_from(body, 125, 0) {
                                    Option::None => Option::None,
                                    Option::Some(ce) => {
                                        let cmd = strip_leading(
                                            trim_ws(body.subrange(0, ce)),
                                            92,
                                        );
                                        Option::Some((cp, ascii_chars(cmd)))
                                    },
                                }
                            },
                        }
                    },
                }
            },
        }
    }
}

/// Whether a code point already has a row.
pub open spec fn cp_in(acc: Seq<(u32, Seq<char>)>, cp: u32) -> bool {
    exists|i: int| 0 <= i < acc.len() && acc[i].0 == cp
}

/// The table rows accumulated from the lines starting at `pos`: each
/// parsed line adds its row unless its code point already has one — the
/// first occurrence wins.
pub open spec fn table_fold(content: Seq<u8>, pos: int, acc: Seq<(u32, Seq<char>)>) -> Seq<
    (u32, Seq<char>),
>
    decreases content.len() + 1 - pos,
{
    if pos < 0 || pos >= content.len() {
        acc
    } else {
        let le = match find_byte_from(content, 10, pos) {
            Option::Some(e) => e,
            Option::None => content.len() as int,
        };
        let line_end = if le < pos {
            pos
        } else if le > content.len() {
            content.len() as int
        } else {
            le
        };
        let acc2 = match table_line_parses(content.subrange(pos, line_end)) {
            Option::Some((cp, cmd)) => if cp_in(acc, cp) {
                acc
            } else {
                acc.push((cp, cmd))
            },
            Option::None => acc,
        };
        table_fold(content, line_end + 1, acc2)
    }
}

/// The rows of a whole math table file.
pub open spec fn unicode_math_table(content: Seq<u8>) -> Seq<(u32, Seq<char>)> {
    table_fold(content, 0, Seq::empty())
}

/// The rows of a parsed table, as plain values.
pub open spec fn table_rows(v: Seq<(char, String)>) -> Seq<(u32, Seq<char>)> {
    v.map_values(|p: (char, String)| (p.0 as u32, p.1@))
}

/// Appending a row to a parsed table appends its value.
proof fn lemma_table_rows_push(v: Seq<(char, String)>, p: (char, String))
    ensures
        table_rows(v.push(p)) == table_rows(v).push((p.0 as u32, p.1@)),
{
    assert(table_rows(v.push(p)) =~= table_rows(v).push((p.0 as u32, p.1@)));
}

/// Whether a parsed table already has a row for a character, by linear
/// scan.
fn contains_cp(v: &Vec<(char, String)>, ch: char) -> (r: bool)
    ensures
        r == cp_in(table_rows(v@), ch as u32),
{
    let mut i: usize = 0;
    while i < v.len()
        invariant
            0 <= i <= v@.len(),
            forall|j: int| 0 <= j < i ==> table_rows(v@)[j].0 != ch as u32,
        decreases v@.len() - i,
    {
        if v[i].0 as u32 == ch as u32 {
            assert(table_rows(v@)[i as int].0 == ch as u32);
            return true;
        }
        assert(table_rows(v@)[i as int].0 != ch as u32);
        i = i + 1;
    }
    false
}

/// Parse one line of the math table.
fn parse_table_line(line: &[u8]) -> (r: Option<(char, String)>)
    ensures
        match table_line_parses(line@) {
            Option::Some((cp, cmd)) => r matches Some(p) && p.0 as u32 == cp && p.1@ == cmd,
            Option::None => r is None,
        },
{
    let (lo, hi) = trim_ws_bounds(line);
    let t = slice_subrange(line, lo, hi);
    if t.len() < 19 {
        return None;
    }
    let marker: Vec<u8> = vec![
        92u8,
        85u8,
        110u8,
        105u8,
        99u8,
        111u8,
        100u8,
        101u8,
        77u8,
        97u8,
        116u8,
        104u8,
        83u8,
        121u8,
        109u8,
        98u8,
        111u8,
        108u8,
        123u8,
    ];
    proof {
        assert(marker@ =~= table_marker());
    }
    if !match_at(t, marker.as_slice(), 0) {
        proof {
            assert(t@.subrange(0, 19) =~= t@.subrange(0int, 0 + table_marker().len() as int));
        }
        return None;
    }
    proof {
        assert(t@.subrange(0, 19) =~= t@.subrange(0int, 0 + table_marker().len() as int));
    }
    let t_len = t.len();
    let rest = slice_subrange(t, 19, t_len);
    let cp_end = match find_byte(rest, 125, 0) {
        Some(e) => e,
        None => {
            return None;
        },
    };
    proof {
        lemma_find_byte_in_range(rest@, 125, 0);
    }
    let cp_field = slice_subrange(rest, 0, cp_end);
    let q = strip_leading_pos(cp_field, 34, 0);
    let cp_len = cp_field.len();
    let cp_str = slice_subrange(cp_field, q, cp_len);
    proof {
        assert(cp_field@.subrange(0, cp_field@.len() as int) =~= cp_field@);
    }
    let cp = match u32_from_hex(cp_str) {
        Some(v) => v,
        None => {
            return None;
        },
    };
    let ch = match char::from_u32(cp) {
        Some(c) => c,
        None => {
            return None;
        },
    };
    let rest_len = rest.len();
    let after = slice_subrange(rest, cp_end + 1, rest_len);
    let cs = match find_byte(after, 123, 0) {
        Some(e) => e,
        None => {
            return None;
        },
    };
    proof {
        lemma_find_byte_in_range(after@, 123, 0);
    }
    let after_len = after.len();
    let body = slice_subrange(after, cs + 1, after_len);
    let ce = match find_byte(body, 125, 0) {
        Some(e) => e,
        None => {
            return None;
        },
    };
    proof {
        lemma_find_byte_in_range(body@, 125, 0);
    }
    let inner = slice_subrange(body, 0, ce);
    let (tlo, thi) = trim_ws_bounds(inner);
    let trimmed = slice_subrange(inner, tlo, thi);
    let sp = strip_leading_pos(trimmed, 92, 0);
    let trimmed_len = trimmed.len();
    let cmd_slice = slice_subrange(trimmed, sp, trimmed_len);
    proof {
        assert(trimmed@.subrange(0, trimmed@.len() as int) =~= trimmed@);
    }
    let cmd = ascii_string(cmd_slice);
    Some((ch, cmd))
}

/// Parse a unicode-math table file: one row per `\UnicodeMathSymbol`
/// line whose code point is a scalar value, first occurrence of a code
/// point winning; malformed lines are skipped.
pub fn parse_unicode_math_table(content: &[u8]) -> (r: Vec<(char, String)>)
    ensures
        table_rows(r@) == unicode_math_table(content@),
{
    let mut r: Vec<(char, String)> = Vec::new();
    proof {
        assert(table_rows(r@) =~= Seq::<(u32, Seq<char>)>::empty());
    }
    let n = content.len();
    let mut pos: usize = 0;
    while pos < n
        invariant
            0 <= pos,
            n == content@.len(),
            table_fold(content@, pos as int, table_rows(r@)) == unicode_math_table(content@),
        decreases n + 1 - pos,
    {
        let line_end = match find_byte(content, 10, pos) {
            Some(e) => e,
            None => n,
        };
        proof {
            lemma_find_byte_in_range(content@, 10, pos as int);
        }
        let line = slice_subrange(content, pos, line_end);
        let ghost rows_before = table_rows(r@);
        match parse_table_line(line) {
            Some((ch, cmd)) => {
                if !contains_cp(&r, ch) {
                    let ghost r_before = r@;
                    r.push((ch, cmd));
                    proof {
                        lemma_table_rows_push(r_before, r@.last());
                        assert(r@ == r_before.push(r@.last()));
                    }
                }
            },
            None => {},
        }
        if line_end >= n {
            // Last line: nothing follows it.
            proof {
                assert(table_fold(content@, line_end + 1, table_rows(r@)) == table_rows(r@));
            }
            return r;
        }
        pos = line_end + 1;
    }
    r
}

} // verus!
