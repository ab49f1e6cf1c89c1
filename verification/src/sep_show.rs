//! Which separator is in force for each key, and where it comes from; and
//! separators set from `KEY=VALUE` items.

use vstd::prelude::*;
use crate::tblschema::sep_view;
use crate::text::{chars_of, find_char, first_index, str_is, string_of_chars, sub_chars, trim, trim_chars};
use crate::types::{spec_sep_key_named, SepKey, SeparatorsSection};

verus! {

/// Where a separator in force comes from.
#[derive(Clone, Copy, Debug, PartialEq, Eq, Structural)]
pub enum SepSource {
    /// The built-in default.
    Default,
    /// The schema file.
    Schema,
    /// The configuration file.
    Config,
}

impl SepSource {
    pub open spec fn spec_label(self) -> Seq<char> {
        match self {
            SepSource::Default => "默认"@,
            SepSource::Schema => "schema"@,
            SepSource::Config => "config"@,
        }
    }

    /// How the source is shown.
    pub fn label(&self) -> (r: &'static str)
        ensures
            r@ == self.spec_label(),
    {
        match self {
            SepSource::Default => "默认",
            SepSource::Schema => "schema",
            SepSource::Config => "config",
        }
    }
}

/// One key of the separator listing.
#[derive(Clone, Debug)]
pub struct SepEntry {
    pub key: String,
    pub value: String,
    pub source: SepSource,
}

/// The separator in force for `k` and its source: the schema's where it
/// differs from the default, else the configuration's where that differs,
/// else the default. With `defaults_only`, the default.
pub open spec fn sep_resolution(
    k: SepKey,
    defaults_only: bool,
    config: Option<SeparatorsSection>,
    schema: Option<SeparatorsSection>,
) -> (Seq<char>, SepSource) {
    let d = k.default_value();
    let from_config = match config {
        Some(c) => if k.value_in(c) != d { (k.value_in(c), SepSource::Config) } else { (d, SepSource::Default) },
        None => (d, SepSource::Default),
    };
    if defaults_only {
        (d, SepSource::Default)
    } else {
        match schema {
            Some(s) => if k.value_in(s) != d {
                (k.value_in(s), SepSource::Schema)
            } else {
                from_config
            },
            None => from_config,
        }
    }
}

pub open spec fn entry_view(e: SepEntry) -> (Seq<char>, Seq<char>, SepSource) {
    (e.key@, e.value@, e.source)
}

fn texts_equal(a: &str, b: &str) -> (r: bool)
    ensures
        r == (a@ == b@),
{
    str_is(a, b)
}

/// The listing of every key, in the fixed key order, with the separator in
/// force and its source (see [`sep_resolution`]).
pub fn sep_show_entries(
    defaults_only: bool,
    config: Option<&SeparatorsSection>,
    schema: Option<&SeparatorsSection>,
) -> (r: Vec<SepEntry>)
    ensures
        r@.len() == SepKey::spec_all().len(),
        forall|i: int|
            0 <= i < r@.len() ==> #[trigger] entry_view(r@[i]) == ({
                let k = SepKey::spec_all()[i];
                let (v, src) = sep_resolution(
                    k,
                    defaults_only,
                    match config {
                        Some(c) => Some(*c),
                        None => None,
                    },
                    match schema {
                        Some(s) => Some(*s),
                        None => None,
                    },
                );
                (k.directive_key(), v, src)
            }),
{
    let builtin = SeparatorsSection::default();
    let keys = SepKey::all();
    let ghost cfg: Option<SeparatorsSection> = match config {
        Some(c) => Some(*c),
        None => None,
    };
    let ghost sch: Option<SeparatorsSection> = match schema {
        Some(s) => Some(*s),
        None => None,
    };
    let mut out: Vec<SepEntry> = Vec::new();
    let mut i: usize = 0;
    while i < keys.len()
        invariant
            i <= keys@.len(),
            keys@ == SepKey::spec_all(),
            builtin.is_default(),
            out@.len() == i,
            cfg == (match config {
                Some(c) => Some(*c),
                None => None::<SeparatorsSection>,
            }),
            sch == (match schema {
                Some(s) => Some(*s),
                None => None::<SeparatorsSection>,
            }),
            forall|j: int|
                0 <= j < i ==> #[trigger] entry_view(out@[j]) == ({
                    let k = SepKey::spec_all()[j];
                    let (v, src) = sep_resolution(k, defaults_only, cfg, sch);
                    (k.directive_key(), v, src)
                }),
        decreases keys.len() - i,
    {
        let k = keys[i];
        let d = k.get(&builtin);
        assert(d@ == k.default_value());
        let mut value = String::from_str(d);
        let mut source = SepSource::Default;
        if !defaults_only {
            match config {
                Some(c) => {
                    let cv = k.get(c);
                    if !texts_equal(cv, d) {
                        value = String::from_str(cv);
                        source = SepSource::Config;
                    }
                },
                None => {},
            }
            match schema {
                Some(s) => {
                    let sv = k.get(s);
                    if !texts_equal(sv, d) {
                        value = String::from_str(sv);
                        source = SepSource::Schema;
                    }
                },
                None => {},
            }
        }
        let e = SepEntry { key: String::from_str(k.as_directive_key()), value, source };
        assert(entry_view(e) == ({
            let (v, src) = sep_resolution(k, defaults_only, cfg, sch);
            (k.directive_key(), v, src)
        }));
        out.push(e);
        i = i + 1;
    }
    out
}

// ───────────────────────── `KEY=VALUE` items ─────────────────────────

/// Why a separator item was refused.
#[derive(Clone, Debug)]
pub enum SepItemError {
    /// The item has no `=`.
    BadFormat(String),
    /// The key names no separator.
    UnknownKey(String),
}

pub enum SepItemErrorView {
    BadFormat(Seq<char>),
    UnknownKey(Seq<char>),
}

impl View for SepItemError {
    type V = SepItemErrorView;

    open spec fn view(&self) -> SepItemErrorView {
        match self {
            SepItemError::BadFormat(s) => SepItemErrorView::BadFormat(s@),
            SepItemError::UnknownKey(s) => SepItemErrorView::UnknownKey(s@),
        }
    }
}

impl SepItemError {
    pub open spec fn spec_message(e: SepItemErrorView) -> Seq<char> {
        match e {
            SepItemErrorView::BadFormat(s) => "分隔符格式错误，应为 KEY=VALUE: "@ + s,
            SepItemErrorView::UnknownKey(k) => "未知的分隔符 key: "@ + k,
        }
    }

    /// Text of the error as the tool reports it.
    pub fn message(&self) -> (r: String)
        ensures
            r@ == Self::spec_message(self@),
    {
        match self {
            SepItemError::BadFormat(s) => String::from_str("分隔符格式错误，应为 KEY=VALUE: ").concat(s.as_str()),
            SepItemError::UnknownKey(k) => String::from_str("未知的分隔符 key: ").concat(k.as_str()),
        }
    }
}

/// The separators after one item: the key before the first `=` (trimmed)
/// takes the value after it (trimmed).
pub open spec fn sep_item(m: Map<SepKey, Seq<char>>, item: Seq<char>) -> Result<
    Map<SepKey, Seq<char>>,
    SepItemErrorView,
> {
    match first_index(item, '=') {
        None => Err(SepItemErrorView::BadFormat(item)),
        Some(i) => match spec_sep_key_named(trim(item.take(i))) {
            None => Err(SepItemErrorView::UnknownKey(trim(item.take(i)))),
            Some(k) => Ok(m.insert(k, trim(item.skip(i + 1)))),
        },
    }
}

/// The separators after the items, in order; the first bad item stops.
pub open spec fn sep_items(m: Map<SepKey, Seq<char>>, items: Seq<Seq<char>>) -> Result<
    Map<SepKey, Seq<char>>,
    SepItemErrorView,
>
    decreases items.len(),
{
    if items.len() == 0 {
        Ok(m)
    } else {
        match sep_items(m, items.drop_last()) {
            Ok(m2) => sep_item(m2, items.last()),
            Err(e) => Err(e),
        }
    }
}

proof fn lemma_error_stays(m: Map<SepKey, Seq<char>>, items: Seq<Seq<char>>, k: int)
    requires
        0 <= k <= items.len(),
        sep_items(m, items.take(k)) is Err,
    ensures
        sep_items(m, items) == sep_items(m, items.take(k)),
    decreases items.len(),
{
    if items.len() == k {
        assert(items.take(k) =~= items);
    } else {
        assert(items.drop_last().take(k) =~= items.take(k));
        lemma_error_stays(m, items.drop_last(), k);
    }
}

pub open spec fn result_view(r: Result<SeparatorsSection, SepItemError>) -> Result<
    Map<SepKey, Seq<char>>,
    SepItemErrorView,
> {
    match r {
        Ok(s) => Ok(sep_view(s)),
        Err(e) => Err(e@),
    }
}

/// Separators from `base` with the `KEY=VALUE` items applied in order, or
/// the first item that has no `=` or names no separator.
pub fn build_separators(base: SeparatorsSection, items: &[String]) -> (r: Result<SeparatorsSection, SepItemError>)
    ensures
        result_view(r) == sep_items(sep_view(base), items@.map_values(|s: String| s@)),
{
    let ghost iv = items@.map_values(|s: String| s@);
    let mut sep = base;
    let mut i: usize = 0;
    assert(iv.take(0) =~= Seq::<Seq<char>>::empty());
    while i < items.len()
        invariant
            i <= items@.len(),
            iv == items@.map_values(|s: String| s@),
            sep_items(sep_view(base), iv.take(i as int)) == Ok::<Map<SepKey, Seq<char>>, SepItemErrorView>(
                sep_view(sep),
            ),
        decreases items.len() - i,
    {
        assert(iv.take(i + 1).drop_last() =~= iv.take(i as int));
        assert(iv.take(i + 1).last() == items@[i as int]@);
        let cs = chars_of(items[i].as_str());
        match find_char(cs.as_slice(), '=') {
            None => {
                proof {
                    lemma_error_stays(sep_view(base), iv, i + 1);
                }
                return Err(SepItemError::BadFormat(items[i].clone()));
            },
            Some(p) => {
                proof {
                    crate::text::lemma_first_index_bounds(cs@, '=');
                }
                let n = cs.len();
                let key = trim_chars(sub_chars(cs.as_slice(), 0, p).as_slice());
                let val = trim_chars(sub_chars(cs.as_slice(), p + 1, n).as_slice());
                assert(cs@.subrange(0, p as int) =~= cs@.take(p as int));
                assert(cs@.subrange(p + 1, cs@.len() as int) =~= cs@.skip(p + 1));
                let ks = string_of_chars(key.as_slice());
                match SepKey::from_directive_key(ks.as_str()) {
                    None => {
                        proof {
                            lemma_error_stays(sep_view(base), iv, i + 1);
                        }
                        return Err(SepItemError::UnknownKey(ks));
                    },
                    Some(k) => {
                        let ghost before = sep_view(sep);
                        k.set(&mut sep, string_of_chars(val.as_slice()));
                        assert(sep_view(sep) =~= before.insert(k, val@));
                    },
                }
            },
        }
        i = i + 1;
    }
    assert(iv.take(i as int) =~= iv);
    Ok(sep)
}

} // verus!
