//! The type grammar of `.tbl` columns and the separator configuration.
//!
//! A column type is a base type (`int`, `long`, `float`, `double`, `str`,
//! `bool`, `txt`), a tuple `TupleN<..>` of two to four base types, a
//! container (`List<..>`, `Set<..>`, `Map<k,..>`) whose items are base
//! types, tuples or (for map values) lists, or a reference `@Name` to the
//! ids of another table or enum.

use vstd::prelude::*;
use crate::text::{
    chars_is, chars_of, find_char, first_index, has_prefix, lemma_first_index_bounds, split_chars,
    split_on, starts_with, string_of, sub_chars, trim, trim_chars,
};

verus! {

/// Scalar types of the grammar.
#[derive(Clone, Copy, Debug, PartialEq, Eq, Structural)]
pub enum BaseType {
    Int,
    Long,
    Float,
    Double,
    Str,
    Bool,
    Txt,
}

/// The base type written `w`.
pub open spec fn spec_base_of(w: Seq<char>) -> Option<BaseType> {
    if w == "int"@ {
        Some(BaseType::Int)
    } else if w == "long"@ {
        Some(BaseType::Long)
    } else if w == "float"@ {
        Some(BaseType::Float)
    } else if w == "double"@ {
        Some(BaseType::Double)
    } else if w == "str"@ {
        Some(BaseType::Str)
    } else if w == "bool"@ {
        Some(BaseType::Bool)
    } else if w == "txt"@ {
        Some(BaseType::Txt)
    } else {
        None
    }
}

impl BaseType {
    /// The base type written `w`, if any.
    pub fn from_chars(w: &[char]) -> (r: Option<BaseType>)
        ensures
            r == spec_base_of(w@),
    {
        if chars_is(w, "int") {
            Some(BaseType::Int)
        } else if chars_is(w, "long") {
            Some(BaseType::Long)
        } else if chars_is(w, "float") {
            Some(BaseType::Float)
        } else if chars_is(w, "double") {
            Some(BaseType::Double)
        } else if chars_is(w, "str") {
            Some(BaseType::Str)
        } else if chars_is(w, "bool") {
            Some(BaseType::Bool)
        } else if chars_is(w, "txt") {
            Some(BaseType::Txt)
        } else {
            None
        }
    }
}

/// Shape of a column type.
#[derive(Clone, Copy, Debug, PartialEq, Eq, Structural)]
pub enum Paradigm {
    Base,
    Tuple2,
    Tuple3,
    Tuple4,
    List,
    SetOf,
    MapOf,
    ListTuple2,
    ListTuple3,
    ListTuple4,
    MapTuple2,
    MapTuple3,
    MapTuple4,
    MapList,
    Ref,
}

/// A parsed column type: its shape, the base types in the order they are
/// written (none for a reference), and the referenced name.
#[derive(Clone, Debug)]
pub struct TblType {
    pub paradigm: Paradigm,
    pub params: Vec<BaseType>,
    pub ref_name: Option<String>,
}

/// Mathematical value of a [`TblType`].
pub struct TypeShape {
    pub paradigm: Paradigm,
    pub params: Seq<BaseType>,
    pub ref_name: Option<Seq<char>>,
}

pub open spec fn shape(paradigm: Paradigm, params: Seq<BaseType>) -> TypeShape {
    TypeShape { paradigm, params, ref_name: None }
}

impl View for TblType {
    type V = TypeShape;

    open spec fn view(&self) -> TypeShape {
        TypeShape {
            paradigm: self.paradigm,
            params: self.params@,
            ref_name: match self.ref_name {
                Some(s) => Some(s@),
                None => None,
            },
        }
    }
}

/// The text between `head` and a final `>`.
pub open spec fn angle_body(t: Seq<char>, head: Seq<char>) -> Option<Seq<char>> {
    if starts_with(t, head) && t.len() >= head.len() + 1 && t.last() == '>' {
        Some(t.subrange(head.len() as int, t.len() - 1))
    } else {
        None
    }
}

/// The base types of a comma separated list, each piece trimmed.
pub open spec fn spec_bases(x: Seq<char>) -> Option<Seq<BaseType>> {
    let ps = split_on(x, ',');
    if forall|i: int| 0 <= i < ps.len() ==> (#[trigger] spec_base_of(trim(ps[i]))) is Some {
        Some(ps.map_values(|p: Seq<char>| spec_base_of(trim(p))->0))
    } else {
        None
    }
}

/// The base types of `TupleN<..>` with `N` of 2 to 4.
pub open spec fn spec_tuple(t: Seq<char>) -> Option<Seq<BaseType>> {
    match angle_body(t, "Tuple2<"@) {
        Some(x) => match spec_bases(x) {
            Some(b) => if b.len() == 2 { Some(b) } else { None },
            None => None,
        },
        None => match angle_body(t, "Tuple3<"@) {
            Some(x) => match spec_bases(x) {
                Some(b) => if b.len() == 3 { Some(b) } else { None },
                None => None,
            },
            None => match angle_body(t, "Tuple4<"@) {
                Some(x) => match spec_bases(x) {
                    Some(b) => if b.len() == 4 { Some(b) } else { None },
                    None => None,
                },
                None => None,
            },
        },
    }
}

pub open spec fn tuple_paradigm(n: nat) -> Paradigm {
    if n == 2 { Paradigm::Tuple2 } else if n == 3 { Paradigm::Tuple3 } else { Paradigm::Tuple4 }
}

pub open spec fn list_tuple_paradigm(n: nat) -> Paradigm {
    if n == 2 {
        Paradigm::ListTuple2
    } else if n == 3 {
        Paradigm::ListTuple3
    } else {
        Paradigm::ListTuple4
    }
}

pub open spec fn map_tuple_paradigm(n: nat) -> Paradigm {
    if n == 2 {
        Paradigm::MapTuple2
    } else if n == 3 {
        Paradigm::MapTuple3
    } else {
        Paradigm::MapTuple4
    }
}

/// Value part of `Map<k,v>`: a base type, a tuple, or a list of a base type.
pub open spec fn spec_map_value(k: BaseType, v: Seq<char>) -> Option<TypeShape> {
    match spec_base_of(v) {
        Some(b) => Some(shape(Paradigm::MapOf, seq![k, b])),
        None => match spec_tuple(v) {
            Some(ps) => Some(shape(map_tuple_paradigm(ps.len()), seq![k] + ps)),
            None => match angle_body(v, "List<"@) {
                Some(y) => match spec_base_of(trim(y)) {
                    Some(b) => Some(shape(Paradigm::MapList, seq![k, b])),
                    None => None,
                },
                None => None,
            },
        },
    }
}

/// The column type written `s`; `None` when `s` is not in the grammar.
pub open spec fn spec_parse_type(s: Seq<char>) -> Option<TypeShape> {
    let t = trim(s);
    if t.len() > 0 && t[0] == '@' {
        let name = trim(t.drop_first());
        if name.len() > 0 {
            Some(TypeShape { paradigm: Paradigm::Ref, params: seq![], ref_name: Some(name) })
        } else {
            None
        }
    } else {
        match spec_base_of(t) {
            Some(b) => Some(shape(Paradigm::Base, seq![b])),
            None => match spec_tuple(t) {
                Some(ps) => Some(shape(tuple_paradigm(ps.len()), ps)),
                None => match angle_body(t, "List<"@) {
                    Some(x) => match spec_base_of(trim(x)) {
                        Some(b) => Some(shape(Paradigm::List, seq![b])),
                        None => match spec_tuple(trim(x)) {
                            Some(ps) => Some(shape(list_tuple_paradigm(ps.len()), ps)),
                            None => None,
                        },
                    },
                    None => match angle_body(t, "Set<"@) {
                        Some(x) => match spec_base_of(trim(x)) {
                            Some(b) => Some(shape(Paradigm::SetOf, seq![b])),
                            None => None,
                        },
                        None => match angle_body(t, "Map<"@) {
                            Some(x) => match first_index(x, ',') {
                                Some(i) => match spec_base_of(trim(x.take(i))) {
                                    Some(k) => spec_map_value(k, trim(x.skip(i + 1))),
                                    None => None,
                                },
                                None => None,
                            },
                            None => None,
                        },
                    },
                },
            },
        }
    }
}

/// Number of base types each shape carries.
pub open spec fn param_count(p: Paradigm) -> nat {
    match p {
        Paradigm::Base | Paradigm::List | Paradigm::SetOf => 1,
        Paradigm::Tuple2 | Paradigm::MapOf | Paradigm::ListTuple2 | Paradigm::MapList => 2,
        Paradigm::Tuple3 | Paradigm::ListTuple3 | Paradigm::MapTuple2 => 3,
        Paradigm::Tuple4 | Paradigm::ListTuple4 | Paradigm::MapTuple3 => 4,
        Paradigm::MapTuple4 => 5,
        Paradigm::Ref => 0,
    }
}

/// Every parsed type carries as many base types as its shape needs.
pub proof fn lemma_parse_param_count(s: Seq<char>)
    ensures
        spec_parse_type(s) matches Some(t) ==> t.params.len() == param_count(t.paradigm),
{
    let t = trim(s);
    if let Some(ps) = spec_tuple(t) {
        assert(ps.len() == 2 || ps.len() == 3 || ps.len() == 4);
    }
    if let Some(x) = angle_body(t, "List<"@) {
        if let Some(ps) = spec_tuple(trim(x)) {
            assert(ps.len() == 2 || ps.len() == 3 || ps.len() == 4);
        }
    }
    if let Some(x) = angle_body(t, "Map<"@) {
        if let Some(i) = first_index(x, ',') {
            if let Some(ps) = spec_tuple(trim(x.skip(i + 1))) {
                assert(ps.len() == 2 || ps.len() == 3 || ps.len() == 4);
            }
        }
    }
}

fn angle_body_of(t: &[char], head: &str) -> (r: Option<Vec<char>>)
    ensures
        match r {
            Some(v) => angle_body(t@, head@) == Some(v@),
            None => angle_body(t@, head@) is None,
        },
{
    let h = chars_of(head);
    if has_prefix(t, h.as_slice()) && t.len() > h.len() && t[t.len() - 1] == '>' {
        Some(sub_chars(t, h.len(), t.len() - 1))
    } else {
        None
    }
}

fn bases_of(x: &[char]) -> (r: Option<Vec<BaseType>>)
    ensures
        match r {
            Some(v) => spec_bases(x@) == Some(v@),
            None => spec_bases(x@) is None,
        },
{
    let ps = split_chars(x, ',');
    let ghost pv = ps@.map_values(|p: Vec<char>| p@);
    let mut out: Vec<BaseType> = Vec::new();
    let mut i: usize = 0;
    while i < ps.len()
        invariant
            i <= ps@.len(),
            pv == split_on(x@, ','),
            pv == ps@.map_values(|p: Vec<char>| p@),
            out@.len() == i,
            forall|j: int| 0 <= j < i ==> spec_base_of(trim(#[trigger] pv[j])) == Some(out@[j]),
        decreases ps.len() - i,
    {
        let t = trim_chars(ps[i].as_slice());
        assert(pv[i as int] == ps@[i as int]@);
        match BaseType::from_chars(t.as_slice()) {
            Some(b) => {
                out.push(b);
            },
            None => {
                return None;
            },
        }
        i = i + 1;
    }
    assert(out@ =~= pv.map_values(|p: Seq<char>| spec_base_of(trim(p))->0));
    Some(out)
}

fn tuple_with(t: &[char], head: &str, n: usize) -> (r: Option<Vec<BaseType>>)
    ensures
        match r {
            Some(v) => angle_body(t@, head@) matches Some(x) && spec_bases(x) == Some(v@)
                && v@.len() == n,
            None => !(angle_body(t@, head@) matches Some(x) && spec_bases(x) matches Some(b)
                && b.len() == n),
        },
{
    match angle_body_of(t, head) {
        Some(x) => match bases_of(x.as_slice()) {
            Some(b) => if b.len() == n {
                Some(b)
            } else {
                None
            },
            None => None,
        },
        None => None,
    }
}

fn tuple_of(t: &[char]) -> (r: Option<Vec<BaseType>>)
    ensures
        match r {
            Some(v) => spec_tuple(t@) == Some(v@),
            None => spec_tuple(t@) is None,
        },
{
    match angle_body_of(t, "Tuple2<") {
        Some(_) => tuple_with(t, "Tuple2<", 2),
        None => match angle_body_of(t, "Tuple3<") {
            Some(_) => tuple_with(t, "Tuple3<", 3),
            None => match angle_body_of(t, "Tuple4<") {
                Some(_) => tuple_with(t, "Tuple4<", 4),
                None => None,
            },
        },
    }
}

fn tuple_paradigm_of(n: usize) -> (r: Paradigm)
    ensures
        r == tuple_paradigm(n as nat),
{
    if n == 2 { Paradigm::Tuple2 } else if n == 3 { Paradigm::Tuple3 } else { Paradigm::Tuple4 }
}

fn list_tuple_paradigm_of(n: usize) -> (r: Paradigm)
    ensures
        r == list_tuple_paradigm(n as nat),
{
    if n == 2 {
        Paradigm::ListTuple2
    } else if n == 3 {
        Paradigm::ListTuple3
    } else {
        Paradigm::ListTuple4
    }
}

fn map_tuple_paradigm_of(n: usize) -> (r: Paradigm)
    ensures
        r == map_tuple_paradigm(n as nat),
{
    if n == 2 {
        Paradigm::MapTuple2
    } else if n == 3 {
        Paradigm::MapTuple3
    } else {
        Paradigm::MapTuple4
    }
}

fn plain(paradigm: Paradigm, params: Vec<BaseType>) -> (r: TblType)
    ensures
        r@ == shape(paradigm, params@),
{
    TblType { paradigm, params, ref_name: None }
}

fn map_value_of(k: BaseType, v: &[char]) -> (r: Option<TblType>)
    ensures
        match r {
            Some(t) => spec_map_value(k, v@) == Some(t@),
            None => spec_map_value(k, v@) is None,
        },
{
    match BaseType::from_chars(v) {
        Some(b) => {
            let ps = vec![k, b];
            assert(ps@ =~= seq![k, b]);
            Some(plain(Paradigm::MapOf, ps))
        },
        None => match tuple_of(v) {
            Some(ps) => {
                let n = ps.len();
                let mut all = vec![k];
                let mut ps2 = ps;
                let ghost tail = ps2@;
                all.append(&mut ps2);
                assert(all@ =~= seq![k] + tail);
                Some(plain(map_tuple_paradigm_of(n), all))
            },
            None => match angle_body_of(v, "List<") {
                Some(y) => {
                    let yt = trim_chars(y.as_slice());
                    match BaseType::from_chars(yt.as_slice()) {
                        Some(b) => {
                            let ps = vec![k, b];
                            assert(ps@ =~= seq![k, b]);
                            Some(plain(Paradigm::MapList, ps))
                        },
                        None => None,
                    }
                },
                None => None,
            },
        },
    }
}

impl TblType {
    /// Parses a column type; `None` when the text is not in the grammar.
    pub fn parse(s: &str) -> (r: Option<TblType>)
        ensures
            match r {
                Some(t) => spec_parse_type(s@) == Some(t@),
                None => spec_parse_type(s@) is None,
            },
    {
        let raw = chars_of(s);
        let t = trim_chars(raw.as_slice());
        if t.len() > 0 && t[0] == '@' {
            let rest = sub_chars(t.as_slice(), 1, t.len());
            assert(rest@ =~= t@.drop_first());
            let name = trim_chars(rest.as_slice());
            if name.len() > 0 {
                return Some(
                    TblType {
                        paradigm: Paradigm::Ref,
                        params: Vec::new(),
                        ref_name: Some(string_of(&name)),
                    },
                );
            } else {
                return None;
            }
        }
        let ts = t.as_slice();
        if let Some(b) = BaseType::from_chars(ts) {
            let ps = vec![b];
            assert(ps@ =~= seq![b]);
            return Some(plain(Paradigm::Base, ps));
        }
        if let Some(ps) = tuple_of(ts) {
            let n = ps.len();
            return Some(plain(tuple_paradigm_of(n), ps));
        }
        if let Some(x) = angle_body_of(ts, "List<") {
            let y = trim_chars(x.as_slice());
            if let Some(b) = BaseType::from_chars(y.as_slice()) {
                let ps = vec![b];
                assert(ps@ =~= seq![b]);
                return Some(plain(Paradigm::List, ps));
            }
            if let Some(ps) = tuple_of(y.as_slice()) {
                let n = ps.len();
                return Some(plain(list_tuple_paradigm_of(n), ps));
            }
            return None;
        }
        if let Some(x) = angle_body_of(ts, "Set<") {
            let y = trim_chars(x.as_slice());
            if let Some(b) = BaseType::from_chars(y.as_slice()) {
                let ps = vec![b];
                assert(ps@ =~= seq![b]);
                return Some(plain(Paradigm::SetOf, ps));
            }
            return None;
        }
        if let Some(x) = angle_body_of(ts, "Map<") {
            if let Some(i) = find_char(x.as_slice(), ',') {
                proof {
                    lemma_first_index_bounds(x@, ',');
                }
                let kpart = sub_chars(x.as_slice(), 0, i);
                assert(kpart@ =~= x@.take(i as int));
                let kt = trim_chars(kpart.as_slice());
                if let Some(k) = BaseType::from_chars(kt.as_slice()) {
                    let vpart = sub_chars(x.as_slice(), i + 1, x.len());
                    assert(vpart@ =~= x@.skip(i + 1));
                    let vt = trim_chars(vpart.as_slice());
                    return map_value_of(k, vt.as_slice());
                }
            }
            return None;
        }
        None
    }

    /// Whether some base type of this type is `txt`.
    pub fn has_txt(&self) -> (r: bool)
        ensures
            r == self.params@.contains(BaseType::Txt),
    {
        let mut i: usize = 0;
        while i < self.params.len()
            invariant
                i <= self.params@.len(),
                forall|j: int| 0 <= j < i ==> self.params@[j] != BaseType::Txt,
            decreases self.params.len() - i,
        {
            if self.params[i] == BaseType::Txt {
                return true;
            }
            i = i + 1;
        }
        false
    }
}

/// Separators of `Map<k,v>` values.
#[derive(Clone, Debug)]
pub struct MapSep {
    pub kv: String,
    pub entry: String,
}

/// Separators of `List<TupleN<..>>` values.
#[derive(Clone, Debug)]
pub struct ListTupleSep {
    pub tuple: String,
    pub list: String,
}

/// Separators of `Map<k,TupleN<..>>` values.
#[derive(Clone, Debug)]
pub struct MapTupleSep {
    pub kv: String,
    pub tuple: String,
    pub entry: String,
}

/// Separators of `Map<k,List<v>>` values.
#[derive(Clone, Debug)]
pub struct MapListSep {
    pub kv: String,
    pub item: String,
    pub entry: String,
}

/// The separators that composite cell values are written with (25 leaves).
#[derive(Clone, Debug)]
pub struct SeparatorsSection {
    pub tuple2: String,
    pub tuple3: String,
    pub tuple4: String,
    pub list: String,
    pub set: String,
    pub map: MapSep,
    pub list_tuple2: ListTupleSep,
    pub list_tuple3: ListTupleSep,
    pub list_tuple4: ListTupleSep,
    pub map_tuple2: MapTupleSep,
    pub map_tuple3: MapTupleSep,
    pub map_tuple4: MapTupleSep,
    pub map_list: MapListSep,
}

/// The key whose `# @sep` directive name is `w`.
pub open spec fn spec_sep_key_named(w: Seq<char>) -> Option<SepKey> {
    if w == "Tuple2"@ {
        Some(SepKey::Tuple2)
    } else if w == "Tuple3"@ {
        Some(SepKey::Tuple3)
    } else if w == "Tuple4"@ {
        Some(SepKey::Tuple4)
    } else if w == "List"@ {
        Some(SepKey::List)
    } else if w == "Set"@ {
        Some(SepKey::SetSep)
    } else if w == "Map.kv"@ {
        Some(SepKey::MapKv)
    } else if w == "Map.entry"@ {
        Some(SepKey::MapEntry)
    } else if w == "List_Tuple2.tuple"@ {
        Some(SepKey::ListTuple2Tuple)
    } else if w == "List_Tuple2.list"@ {
        Some(SepKey::ListTuple2List)
    } else if w == "List_Tuple3.tuple"@ {
        Some(SepKey::ListTuple3Tuple)
    } else if w == "List_Tuple3.list"@ {
        Some(SepKey::ListTuple3List)
    } else if w == "List_Tuple4.tuple"@ {
        Some(SepKey::ListTuple4Tuple)
    } else if w == "List_Tuple4.list"@ {
        Some(SepKey::ListTuple4List)
    } else if w == "Map_Tuple2.kv"@ {
        Some(SepKey::MapTuple2Kv)
    } else if w == "Map_Tuple2.tuple"@ {
        Some(SepKey::MapTuple2Tuple)
    } else if w == "Map_Tuple2.entry"@ {
        Some(SepKey::MapTuple2Entry)
    } else if w == "Map_Tuple3.kv"@ {
        Some(SepKey::MapTuple3Kv)
    } else if w == "Map_Tuple3.tuple"@ {
        Some(SepKey::MapTuple3Tuple)
    } else if w == "Map_Tuple3.entry"@ {
        Some(SepKey::MapTuple3Entry)
    } else if w == "Map_Tuple4.kv"@ {
        Some(SepKey::MapTuple4Kv)
    } else if w == "Map_Tuple4.tuple"@ {
        Some(SepKey::MapTuple4Tuple)
    } else if w == "Map_Tuple4.entry"@ {
        Some(SepKey::MapTuple4Entry)
    } else if w == "Map_List.kv"@ {
        Some(SepKey::MapListKv)
    } else if w == "Map_List.item"@ {
        Some(SepKey::MapListItem)
    } else if w == "Map_List.entry"@ {
        Some(SepKey::MapListEntry)
    } else {
        None
    }
}

/// One leaf of the separator configuration.
#[derive(Clone, Copy, Debug, PartialEq, Eq, Structural, Hash, PartialOrd, Ord)]
pub enum SepKey {
    Tuple2,
    Tuple3,
    Tuple4,
    List,
    SetSep,
    MapKv,
    MapEntry,
    ListTuple2Tuple,
    ListTuple2List,
    ListTuple3Tuple,
    ListTuple3List,
    ListTuple4Tuple,
    ListTuple4List,
    MapTuple2Kv,
    MapTuple2Tuple,
    MapTuple2Entry,
    MapTuple3Kv,
    MapTuple3Tuple,
    MapTuple3Entry,
    MapTuple4Kv,
    MapTuple4Tuple,
    MapTuple4Entry,
    MapListKv,
    MapListItem,
    MapListEntry,
}

impl SepKey {
    /// The separator that `sep` holds under this key.
    pub open spec fn value_in(self, sep: SeparatorsSection) -> Seq<char> {
        match self {
            SepKey::Tuple2 => sep.tuple2@,
            SepKey::Tuple3 => sep.tuple3@,
            SepKey::Tuple4 => sep.tuple4@,
            SepKey::List => sep.list@,
            SepKey::SetSep => sep.set@,
            SepKey::MapKv => sep.map.kv@,
            SepKey::MapEntry => sep.map.entry@,
            SepKey::ListTuple2Tuple => sep.list_tuple2.tuple@,
            SepKey::ListTuple2List => sep.list_tuple2.list@,
            SepKey::ListTuple3Tuple => sep.list_tuple3.tuple@,
            SepKey::ListTuple3List => sep.list_tuple3.list@,
            SepKey::ListTuple4Tuple => sep.list_tuple4.tuple@,
            SepKey::ListTuple4List => sep.list_tuple4.list@,
            SepKey::MapTuple2Kv => sep.map_tuple2.kv@,
            SepKey::MapTuple2Tuple => sep.map_tuple2.tuple@,
            SepKey::MapTuple2Entry => sep.map_tuple2.entry@,
            SepKey::MapTuple3Kv => sep.map_tuple3.kv@,
            SepKey::MapTuple3Tuple => sep.map_tuple3.tuple@,
            SepKey::MapTuple3Entry => sep.map_tuple3.entry@,
            SepKey::MapTuple4Kv => sep.map_tuple4.kv@,
            SepKey::MapTuple4Tuple => sep.map_tuple4.tuple@,
            SepKey::MapTuple4Entry => sep.map_tuple4.entry@,
            SepKey::MapListKv => sep.map_list.kv@,
            SepKey::MapListItem => sep.map_list.item@,
            SepKey::MapListEntry => sep.map_list.entry@,
        }
    }

    /// Name of the key in a `# @sep` directive.
    pub open spec fn directive_key(self) -> Seq<char> {
        match self {
            SepKey::Tuple2 => "Tuple2"@,
            SepKey::Tuple3 => "Tuple3"@,
            SepKey::Tuple4 => "Tuple4"@,
            SepKey::List => "List"@,
            SepKey::SetSep => "Set"@,
            SepKey::MapKv => "Map.kv"@,
            SepKey::MapEntry => "Map.entry"@,
            SepKey::ListTuple2Tuple => "List_Tuple2.tuple"@,
            SepKey::ListTuple2List => "List_Tuple2.list"@,
            SepKey::ListTuple3Tuple => "List_Tuple3.tuple"@,
            SepKey::ListTuple3List => "List_Tuple3.list"@,
            SepKey::ListTuple4Tuple => "List_Tuple4.tuple"@,
            SepKey::ListTuple4List => "List_Tuple4.list"@,
            SepKey::MapTuple2Kv => "Map_Tuple2.kv"@,
            SepKey::MapTuple2Tuple => "Map_Tuple2.tuple"@,
            SepKey::MapTuple2Entry => "Map_Tuple2.entry"@,
            SepKey::MapTuple3Kv => "Map_Tuple3.kv"@,
            SepKey::MapTuple3Tuple => "Map_Tuple3.tuple"@,
            SepKey::MapTuple3Entry => "Map_Tuple3.entry"@,
            SepKey::MapTuple4Kv => "Map_Tuple4.kv"@,
            SepKey::MapTuple4Tuple => "Map_Tuple4.tuple"@,
            SepKey::MapTuple4Entry => "Map_Tuple4.entry"@,
            SepKey::MapListKv => "Map_List.kv"@,
            SepKey::MapListItem => "Map_List.item"@,
            SepKey::MapListEntry => "Map_List.entry"@,
        }
    }

    /// Name of the key in exported data.
    pub open spec fn export_key(self) -> Seq<char> {
        match self {
            SepKey::Tuple2 => "tuple2"@,
            SepKey::Tuple3 => "tuple3"@,
            SepKey::Tuple4 => "tuple4"@,
            SepKey::List => "list"@,
            SepKey::SetSep => "set"@,
            SepKey::MapKv => "map_kv"@,
            SepKey::MapEntry => "map_entry"@,
            SepKey::ListTuple2Tuple => "list_tuple2_tuple"@,
            SepKey::ListTuple2List => "list_tuple2_list"@,
            SepKey::ListTuple3Tuple => "list_tuple3_tuple"@,
            SepKey::ListTuple3List => "list_tuple3_list"@,
            SepKey::ListTuple4Tuple => "list_tuple4_tuple"@,
            SepKey::ListTuple4List => "list_tuple4_list"@,
            SepKey::MapTuple2Kv => "map_tuple2_kv"@,
            SepKey::MapTuple2Tuple => "map_tuple2_tuple"@,
            SepKey::MapTuple2Entry => "map_tuple2_entry"@,
            SepKey::MapTuple3Kv => "map_tuple3_kv"@,
            SepKey::MapTuple3Tuple => "map_tuple3_tuple"@,
            SepKey::MapTuple3Entry => "map_tuple3_entry"@,
            SepKey::MapTuple4Kv => "map_tuple4_kv"@,
            SepKey::MapTuple4Tuple => "map_tuple4_tuple"@,
            SepKey::MapTuple4Entry => "map_tuple4_entry"@,
            SepKey::MapListKv => "map_list_kv"@,
            SepKey::MapListItem => "map_list_item"@,
            SepKey::MapListEntry => "map_list_entry"@,
        }
    }

    /// Built-in default separator of this key.
    pub open spec fn default_value(self) -> Seq<char> {
        match self {
            SepKey::Tuple2 => ","@,
            SepKey::Tuple3 => ","@,
            SepKey::Tuple4 => ","@,
            SepKey::List => ";"@,
            SepKey::SetSep => ";"@,
            SepKey::MapKv => ":"@,
            SepKey::MapEntry => ";"@,
            SepKey::ListTuple2Tuple => ","@,
            SepKey::ListTuple2List => ";"@,
            SepKey::ListTuple3Tuple => ","@,
            SepKey::ListTuple3List => ";"@,
            SepKey::ListTuple4Tuple => ","@,
            SepKey::ListTuple4List => ";"@,
            SepKey::MapTuple2Kv => ":"@,
            SepKey::MapTuple2Tuple => ","@,
            SepKey::MapTuple2Entry => ";"@,
            SepKey::MapTuple3Kv => ":"@,
            SepKey::MapTuple3Tuple => ","@,
            SepKey::MapTuple3Entry => ";"@,
            SepKey::MapTuple4Kv => ":"@,
            SepKey::MapTuple4Tuple => ","@,
            SepKey::MapTuple4Entry => ";"@,
            SepKey::MapListKv => ":"@,
            SepKey::MapListItem => ","@,
            SepKey::MapListEntry => ";"@,
        }
    }

    /// The separator that `sep` holds under this key.
    pub fn get<'a>(&self, sep: &'a SeparatorsSection) -> (r: &'a str)
        ensures
            r@ == self.value_in(*sep),
    {
        match self {
            SepKey::Tuple2 => sep.tuple2.as_str(),
            SepKey::Tuple3 => sep.tuple3.as_str(),
            SepKey::Tuple4 => sep.tuple4.as_str(),
            SepKey::List => sep.list.as_str(),
            SepKey::SetSep => sep.set.as_str(),
            SepKey::MapKv => sep.map.kv.as_str(),
            SepKey::MapEntry => sep.map.entry.as_str(),
            SepKey::ListTuple2Tuple => sep.list_tuple2.tuple.as_str(),
            SepKey::ListTuple2List => sep.list_tuple2.list.as_str(),
            SepKey::ListTuple3Tuple => sep.list_tuple3.tuple.as_str(),
            SepKey::ListTuple3List => sep.list_tuple3.list.as_str(),
            SepKey::ListTuple4Tuple => sep.list_tuple4.tuple.as_str(),
            SepKey::ListTuple4List => sep.list_tuple4.list.as_str(),
            SepKey::MapTuple2Kv => sep.map_tuple2.kv.as_str(),
            SepKey::MapTuple2Tuple => sep.map_tuple2.tuple.as_str(),
            SepKey::MapTuple2Entry => sep.map_tuple2.entry.as_str(),
            SepKey::MapTuple3Kv => sep.map_tuple3.kv.as_str(),
            SepKey::MapTuple3Tuple => sep.map_tuple3.tuple.as_str(),
            SepKey::MapTuple3Entry => sep.map_tuple3.entry.as_str(),
            SepKey::MapTuple4Kv => sep.map_tuple4.kv.as_str(),
            SepKey::MapTuple4Tuple => sep.map_tuple4.tuple.as_str(),
            SepKey::MapTuple4Entry => sep.map_tuple4.entry.as_str(),
            SepKey::MapListKv => sep.map_list.kv.as_str(),
            SepKey::MapListItem => sep.map_list.item.as_str(),
            SepKey::MapListEntry => sep.map_list.entry.as_str(),
        }
    }

    /// Sets the separator of this key; the other keys keep theirs.
    pub fn set(&self, sep: &mut SeparatorsSection, value: String)
        ensures
            self.value_in(*final(sep)) == value@,
            forall|k: SepKey| k != *self ==> k.value_in(*final(sep)) == k.value_in(*old(sep)),
    {
        match self {
            SepKey::Tuple2 => { sep.tuple2 = value; },
            SepKey::Tuple3 => { sep.tuple3 = value; },
            SepKey::Tuple4 => { sep.tuple4 = value; },
            SepKey::List => { sep.list = value; },
            SepKey::SetSep => { sep.set = value; },
            SepKey::MapKv => { sep.map.kv = value; },
            SepKey::MapEntry => { sep.map.entry = value; },
            SepKey::ListTuple2Tuple => { sep.list_tuple2.tuple = value; },
            SepKey::ListTuple2List => { sep.list_tuple2.list = value; },
            SepKey::ListTuple3Tuple => { sep.list_tuple3.tuple = value; },
            SepKey::ListTuple3List => { sep.list_tuple3.list = value; },
            SepKey::ListTuple4Tuple => { sep.list_tuple4.tuple = value; },
            SepKey::ListTuple4List => { sep.list_tuple4.list = value; },
            SepKey::MapTuple2Kv => { sep.map_tuple2.kv = value; },
            SepKey::MapTuple2Tuple => { sep.map_tuple2.tuple = value; },
            SepKey::MapTuple2Entry => { sep.map_tuple2.entry = value; },
            SepKey::MapTuple3Kv => { sep.map_tuple3.kv = value; },
            SepKey::MapTuple3Tuple => { sep.map_tuple3.tuple = value; },
            SepKey::MapTuple3Entry => { sep.map_tuple3.entry = value; },
            SepKey::MapTuple4Kv => { sep.map_tuple4.kv = value; },
            SepKey::MapTuple4Tuple => { sep.map_tuple4.tuple = value; },
            SepKey::MapTuple4Entry => { sep.map_tuple4.entry = value; },
            SepKey::MapListKv => { sep.map_list.kv = value; },
            SepKey::MapListItem => { sep.map_list.item = value; },
            SepKey::MapListEntry => { sep.map_list.entry = value; },
        }
    }

    /// Name of the key in a `# @sep` directive, such as `Map.entry`.
    pub fn as_directive_key(&self) -> (r: &'static str)
        ensures
            r@ == self.directive_key(),
    {
        match self {
            SepKey::Tuple2 => "Tuple2",
            SepKey::Tuple3 => "Tuple3",
            SepKey::Tuple4 => "Tuple4",
            SepKey::List => "List",
            SepKey::SetSep => "Set",
            SepKey::MapKv => "Map.kv",
            SepKey::MapEntry => "Map.entry",
            SepKey::ListTuple2Tuple => "List_Tuple2.tuple",
            SepKey::ListTuple2List => "List_Tuple2.list",
            SepKey::ListTuple3Tuple => "List_Tuple3.tuple",
            SepKey::ListTuple3List => "List_Tuple3.list",
            SepKey::ListTuple4Tuple => "List_Tuple4.tuple",
            SepKey::ListTuple4List => "List_Tuple4.list",
            SepKey::MapTuple2Kv => "Map_Tuple2.kv",
            SepKey::MapTuple2Tuple => "Map_Tuple2.tuple",
            SepKey::MapTuple2Entry => "Map_Tuple2.entry",
            SepKey::MapTuple3Kv => "Map_Tuple3.kv",
            SepKey::MapTuple3Tuple => "Map_Tuple3.tuple",
            SepKey::MapTuple3Entry => "Map_Tuple3.entry",
            SepKey::MapTuple4Kv => "Map_Tuple4.kv",
            SepKey::MapTuple4Tuple => "Map_Tuple4.tuple",
            SepKey::MapTuple4Entry => "Map_Tuple4.entry",
            SepKey::MapListKv => "Map_List.kv",
            SepKey::MapListItem => "Map_List.item",
            SepKey::MapListEntry => "Map_List.entry",
        }
    }

    /// Name of the key in exported data, such as `map_entry`.
    pub fn as_export_key(&self) -> (r: &'static str)
        ensures
            r@ == self.export_key(),
    {
        match self {
            SepKey::Tuple2 => "tuple2",
            SepKey::Tuple3 => "tuple3",
            SepKey::Tuple4 => "tuple4",
            SepKey::List => "list",
            SepKey::SetSep => "set",
            SepKey::MapKv => "map_kv",
            SepKey::MapEntry => "map_entry",
            SepKey::ListTuple2Tuple => "list_tuple2_tuple",
            SepKey::ListTuple2List => "list_tuple2_list",
            SepKey::ListTuple3Tuple => "list_tuple3_tuple",
            SepKey::ListTuple3List => "list_tuple3_list",
            SepKey::ListTuple4Tuple => "list_tuple4_tuple",
            SepKey::ListTuple4List => "list_tuple4_list",
            SepKey::MapTuple2Kv => "map_tuple2_kv",
            SepKey::MapTuple2Tuple => "map_tuple2_tuple",
            SepKey::MapTuple2Entry => "map_tuple2_entry",
            SepKey::MapTuple3Kv => "map_tuple3_kv",
            SepKey::MapTuple3Tuple => "map_tuple3_tuple",
            SepKey::MapTuple3Entry => "map_tuple3_entry",
            SepKey::MapTuple4Kv => "map_tuple4_kv",
            SepKey::MapTuple4Tuple => "map_tuple4_tuple",
            SepKey::MapTuple4Entry => "map_tuple4_entry",
            SepKey::MapListKv => "map_list_kv",
            SepKey::MapListItem => "map_list_item",
            SepKey::MapListEntry => "map_list_entry",
        }
    }

    /// The key named `key` in a `# @sep` directive, if any.
    pub fn from_directive_key(key: &str) -> (r: Option<SepKey>)
        ensures
            r == spec_sep_key_named(key@),
            r matches Some(k) ==> k.directive_key() == key@,
    {
        let v = chars_of(key);
        if chars_is(v.as_slice(), "Tuple2") {
            return Some(SepKey::Tuple2);
        }
        if chars_is(v.as_slice(), "Tuple3") {
            return Some(SepKey::Tuple3);
        }
        if chars_is(v.as_slice(), "Tuple4") {
            return Some(SepKey::Tuple4);
        }
        if chars_is(v.as_slice(), "List") {
            return Some(SepKey::List);
        }
        if chars_is(v.as_slice(), "Set") {
            return Some(SepKey::SetSep);
        }
        if chars_is(v.as_slice(), "Map.kv") {
            return Some(SepKey::MapKv);
        }
        if chars_is(v.as_slice(), "Map.entry") {
            return Some(SepKey::MapEntry);
        }
        if chars_is(v.as_slice(), "List_Tuple2.tuple") {
            return Some(SepKey::ListTuple2Tuple);
        }
        if chars_is(v.as_slice(), "List_Tuple2.list") {
            return Some(SepKey::ListTuple2List);
        }
        if chars_is(v.as_slice(), "List_Tuple3.tuple") {
            return Some(SepKey::ListTuple3Tuple);
        }
        if chars_is(v.as_slice(), "List_Tuple3.list") {
            return Some(SepKey::ListTuple3List);
        }
        if chars_is(v.as_slice(), "List_Tuple4.tuple") {
            return Some(SepKey::ListTuple4Tuple);
        }
        if chars_is(v.as_slice(), "List_Tuple4.list") {
            return Some(SepKey::ListTuple4List);
        }
        if chars_is(v.as_slice(), "Map_Tuple2.kv") {
            return Some(SepKey::MapTuple2Kv);
        }
        if chars_is(v.as_slice(), "Map_Tuple2.tuple") {
            return Some(SepKey::MapTuple2Tuple);
        }
        if chars_is(v.as_slice(), "Map_Tuple2.entry") {
            return Some(SepKey::MapTuple2Entry);
        }
        if chars_is(v.as_slice(), "Map_Tuple3.kv") {
            return Some(SepKey::MapTuple3Kv);
        }
        if chars_is(v.as_slice(), "Map_Tuple3.tuple") {
            return Some(SepKey::MapTuple3Tuple);
        }
        if chars_is(v.as_slice(), "Map_Tuple3.entry") {
            return Some(SepKey::MapTuple3Entry);
        }
        if chars_is(v.as_slice(), "Map_Tuple4.kv") {
            return Some(SepKey::MapTuple4Kv);
        }
        if chars_is(v.as_slice(), "Map_Tuple4.tuple") {
            return Some(SepKey::MapTuple4Tuple);
        }
        if chars_is(v.as_slice(), "Map_Tuple4.entry") {
            return Some(SepKey::MapTuple4Entry);
        }
        if chars_is(v.as_slice(), "Map_List.kv") {
            return Some(SepKey::MapListKv);
        }
        if chars_is(v.as_slice(), "Map_List.item") {
            return Some(SepKey::MapListItem);
        }
        if chars_is(v.as_slice(), "Map_List.entry") {
            return Some(SepKey::MapListEntry);
        }
        None
    }

    /// All keys, in their fixed order.
    pub open spec fn spec_all() -> Seq<SepKey> {
        seq![SepKey::Tuple2, SepKey::Tuple3, SepKey::Tuple4, SepKey::List, SepKey::SetSep, SepKey::MapKv, SepKey::MapEntry, SepKey::ListTuple2Tuple, SepKey::ListTuple2List, SepKey::ListTuple3Tuple, SepKey::ListTuple3List, SepKey::ListTuple4Tuple, SepKey::ListTuple4List, SepKey::MapTuple2Kv, SepKey::MapTuple2Tuple, SepKey::MapTuple2Entry, SepKey::MapTuple3Kv, SepKey::MapTuple3Tuple, SepKey::MapTuple3Entry, SepKey::MapTuple4Kv, SepKey::MapTuple4Tuple, SepKey::MapTuple4Entry, SepKey::MapListKv, SepKey::MapListItem, SepKey::MapListEntry]
    }

    /// All keys, in their fixed order.
    pub fn all() -> (r: Vec<SepKey>)
        ensures
            r@ == Self::spec_all(),
    {
        let r = vec![SepKey::Tuple2, SepKey::Tuple3, SepKey::Tuple4, SepKey::List, SepKey::SetSep, SepKey::MapKv, SepKey::MapEntry, SepKey::ListTuple2Tuple, SepKey::ListTuple2List, SepKey::ListTuple3Tuple, SepKey::ListTuple3List, SepKey::ListTuple4Tuple, SepKey::ListTuple4List, SepKey::MapTuple2Kv, SepKey::MapTuple2Tuple, SepKey::MapTuple2Entry, SepKey::MapTuple3Kv, SepKey::MapTuple3Tuple, SepKey::MapTuple3Entry, SepKey::MapTuple4Kv, SepKey::MapTuple4Tuple, SepKey::MapTuple4Entry, SepKey::MapListKv, SepKey::MapListItem, SepKey::MapListEntry];
        assert(r@ =~= Self::spec_all());
        r
    }
}

impl SeparatorsSection {
    /// Whether every key holds its built-in default.
    pub open spec fn is_default(self) -> bool {
        forall|k: SepKey| #[trigger] k.value_in(self) == k.default_value()
    }
}

impl Default for SeparatorsSection {
    fn default() -> (r: Self)
        ensures
            r.is_default(),
    {
        let r = SeparatorsSection {
            tuple2: String::from_str(","),
            tuple3: String::from_str(","),
            tuple4: String::from_str(","),
            list: String::from_str(";"),
            set: String::from_str(";"),
            map: MapSep { kv: String::from_str(":"), entry: String::from_str(";") },
            list_tuple2: ListTupleSep { tuple: String::from_str(","), list: String::from_str(";") },
            list_tuple3: ListTupleSep { tuple: String::from_str(","), list: String::from_str(";") },
            list_tuple4: ListTupleSep { tuple: String::from_str(","), list: String::from_str(";") },
            map_tuple2: MapTupleSep { kv: String::from_str(":"), tuple: String::from_str(","), entry: String::from_str(";") },
            map_tuple3: MapTupleSep { kv: String::from_str(":"), tuple: String::from_str(","), entry: String::from_str(";") },
            map_tuple4: MapTupleSep { kv: String::from_str(":"), tuple: String::from_str(","), entry: String::from_str(";") },
            map_list: MapListSep { kv: String::from_str(":"), item: String::from_str(","), entry: String::from_str(";") },
        };
        assert forall|k: SepKey| #[trigger] k.value_in(r) == k.default_value() by {
            match k {
                SepKey::Tuple2 => {},
                SepKey::Tuple3 => {},
                SepKey::Tuple4 => {},
                SepKey::List => {},
                SepKey::SetSep => {},
                SepKey::MapKv => {},
                SepKey::MapEntry => {},
                SepKey::ListTuple2Tuple => {},
                SepKey::ListTuple2List => {},
                SepKey::ListTuple3Tuple => {},
                SepKey::ListTuple3List => {},
                SepKey::ListTuple4Tuple => {},
                SepKey::ListTuple4List => {},
                SepKey::MapTuple2Kv => {},
                SepKey::MapTuple2Tuple => {},
                SepKey::MapTuple2Entry => {},
                SepKey::MapTuple3Kv => {},
                SepKey::MapTuple3Tuple => {},
                SepKey::MapTuple3Entry => {},
                SepKey::MapTuple4Kv => {},
                SepKey::MapTuple4Tuple => {},
                SepKey::MapTuple4Entry => {},
                SepKey::MapListKv => {},
                SepKey::MapListItem => {},
                SepKey::MapListEntry => {},
            }
        }
        r
    }
}
} // verus!
