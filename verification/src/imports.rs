//! The imports block of the detailed report: the imported modules,
//! ordered by their lowercased names, each with the number of relocations
//! that name it.

use vstd::prelude::*;
use vstd::string::{StrSliceExecFns, StringExecFns};
use std::collections::HashMap;

use crate::codec::addressable;
use crate::describe::{
    cache_text, cached_module_name, module_cache_or_empty, module_label, spec_mod_ref_index,
    spec_module_cache,
};
use crate::headers::ImageOS2Header;
use crate::ne::NE;
use crate::report::relocs_printable;
use crate::text::{
    dec_chars, pad_left, pad_right, push_dec_aligned, push_left_aligned, push_right_aligned,
};
use crate::types::names::spec_module_refs;
use crate::types::reloc::{reloc_blocks_addressable, relocs_defined, spec_relocation_table};
use crate::types::{ModuleRefTable, RelocationEntry, RelocationTable, RelocationType};
use crate::Error;

verus! {

/// The Unicode lowercase mapping of `s`, as `str::to_lowercase` gives it.
pub uninterp spec fn lowercase(s: Seq<char>) -> Seq<char>;

/// `str::to_lowercase`. Its result is named `lowercase` of the argument's
/// characters: a function of the argument alone; nothing more is stated
/// of the Unicode case mapping.
#[verifier::external_body]
fn to_lowercase(s: &str) -> (r: String)
    ensures
        r@ == lowercase(s@),
{
    s.to_lowercase()
}

/// `a` comes before `b` in the lexicographic order of their characters'
/// code points, a proper prefix first (the order of `str`).
pub open spec fn lex_less(a: Seq<char>, b: Seq<char>) -> bool
    decreases a.len(),
{
    if a.len() == 0 {
        b.len() > 0
    } else if b.len() == 0 {
        false
    } else if (a[0] as int) < (b[0] as int) {
        true
    } else if a[0] == b[0] {
        lex_less(a.drop_first(), b.drop_first())
    } else {
        false
    }
}

/// No sequence comes before itself.
pub proof fn lemma_lex_irreflexive(a: Seq<char>)
    ensures
        !lex_less(a, a),
    decreases a.len(),
{
    if a.len() > 0 {
        lemma_lex_irreflexive(a.drop_first());
    }
}

/// The order is transitive.
pub proof fn lemma_lex_transitive(a: Seq<char>, b: Seq<char>, c: Seq<char>)
    requires
        lex_less(a, b),
        lex_less(b, c),
    ensures
        lex_less(a, c),
    decreases a.len(),
{
    if a.len() > 0 && b.len() > 0 && c.len() > 0 {
        if a[0] == b[0] && b[0] == c[0] {
            lemma_lex_transitive(a.drop_first(), b.drop_first(), c.drop_first());
        }
    }
}

/// Of two different sequences, one comes before the other.
pub proof fn lemma_lex_total(a: Seq<char>, b: Seq<char>)
    requires
        a != b,
    ensures
        lex_less(a, b) || lex_less(b, a),
    decreases a.len(),
{
    if a.len() == 0 && b.len() == 0 {
        assert(a =~= b);
    } else if a.len() > 0 && b.len() > 0 {
        if a[0] == b[0] {
            if a.drop_first() == b.drop_first() {
                assert(a =~= seq![a[0]] + a.drop_first());
                assert(b =~= seq![b[0]] + b.drop_first());
            }
            lemma_lex_total(a.drop_first(), b.drop_first());
        } else {
            assert((a[0] as int) != (b[0] as int));
        }
    }
}

/// Whether `a` comes before `b` in the order of `str`.
fn str_less(a: &str, b: &str) -> (r: bool)
    ensures
        r == lex_less(a@, b@),
{
    let n = a.unicode_len();
    let m = b.unicode_len();
    let mut i: usize = 0;
    assert(a@.skip(0) =~= a@);
    assert(b@.skip(0) =~= b@);
    while i < n && i < m
        invariant
            n == a@.len(),
            m == b@.len(),
            i <= n,
            i <= m,
            lex_less(a@, b@) == lex_less(a@.skip(i as int), b@.skip(i as int)),
        decreases n - i,
    {
        let x = a.get_char(i);
        let y = b.get_char(i);
        assert(a@.skip(i as int)[0] == x);
        assert(b@.skip(i as int)[0] == y);
        if (x as u32) < (y as u32) {
            return true;
        }
        if x != y {
            return false;
        }
        assert(a@.skip(i as int).drop_first() =~= a@.skip(i + 1));
        assert(b@.skip(i as int).drop_first() =~= b@.skip(i + 1));
        i = i + 1;
    }
    i == n && i < m
}

/// The lowercased name of module `k` of `cache`.
pub open spec fn lower_name(cache: Map<usize, Seq<char>>, k: usize) -> Seq<char> {
    lowercase(cache[k])
}

/// Module `i` of `cache` is listed before module `j`: by lowercased name,
/// then by index.
pub open spec fn module_before(cache: Map<usize, Seq<char>>, i: usize, j: usize) -> bool {
    lex_less(lower_name(cache, i), lower_name(cache, j)) || (lower_name(cache, i) == lower_name(
        cache,
        j,
    ) && i < j)
}

/// Each module of `order` is listed before every later one.
pub open spec fn modules_ascending(cache: Map<usize, Seq<char>>, order: Seq<usize>) -> bool {
    forall|a: int, b: int|
        0 <= a < b < order.len() ==> module_before(cache, #[trigger] order[a], #[trigger] order[b])
}

/// `order` lists exactly the modules of `cache`, each before every later
/// one.
pub open spec fn sorted_modules(cache: Map<usize, Seq<char>>, order: Seq<usize>) -> bool {
    &&& forall|k: usize|
        #![trigger cache.contains_key(k)]
        #![trigger order.contains(k)]
        cache.contains_key(k) <==> order.contains(k)
    &&& modules_ascending(cache, order)
}

/// The listing order of the modules of `cache`.
pub open spec fn module_order(cache: Map<usize, Seq<char>>) -> Seq<usize> {
    choose|order: Seq<usize>| sorted_modules(cache, order)
}

proof fn lemma_before_asymmetric(cache: Map<usize, Seq<char>>, i: usize, j: usize)
    requires
        module_before(cache, i, j),
    ensures
        !module_before(cache, j, i),
{
    let x = lower_name(cache, i);
    let y = lower_name(cache, j);
    lemma_lex_irreflexive(x);
    lemma_lex_irreflexive(y);
    if lex_less(x, y) && lex_less(y, x) {
        lemma_lex_transitive(x, y, x);
    }
}

proof fn lemma_before_transitive(cache: Map<usize, Seq<char>>, i: usize, j: usize, k: usize)
    requires
        module_before(cache, i, j),
        module_before(cache, j, k),
    ensures
        module_before(cache, i, k),
{
    let x = lower_name(cache, i);
    let y = lower_name(cache, j);
    let z = lower_name(cache, k);
    if lex_less(x, y) && lex_less(y, z) {
        lemma_lex_transitive(x, y, z);
    }
}

/// Listings of the same modules, each in ascending order, are the same.
proof fn lemma_sorted_unique(
    cache: Map<usize, Seq<char>>,
    o1: Seq<usize>,
    o2: Seq<usize>,
    keys: Set<usize>,
)
    requires
        forall|k: usize| #[trigger] keys.contains(k) <==> o1.contains(k),
        forall|k: usize| #[trigger] keys.contains(k) <==> o2.contains(k),
        modules_ascending(cache, o1),
        modules_ascending(cache, o2),
    ensures
        o1 == o2,
    decreases o1.len() + o2.len(),
{
    if o1.len() == 0 {
        if o2.len() > 0 {
            assert(o2.contains(o2[0]));
            assert(keys.contains(o2[0]));
        }
        assert(o1 =~= o2);
    } else if o2.len() == 0 {
        assert(o1.contains(o1[0]));
        assert(keys.contains(o1[0]));
    } else {
        let x = o1[0];
        let y = o2[0];
        assert(o1.contains(x));
        assert(o2.contains(y));
        assert(keys.contains(x));
        assert(keys.contains(y));
        if x != y {
            assert(o1.contains(y));
            let p = choose|p: int| 0 <= p < o1.len() && o1[p] == y;
            assert(module_before(cache, o1[0], o1[p]));
            assert(o2.contains(x));
            let q = choose|q: int| 0 <= q < o2.len() && o2[q] == x;
            assert(module_before(cache, o2[0], o2[q]));
            lemma_before_asymmetric(cache, x, y);
        }
        let t1 = o1.drop_first();
        let t2 = o2.drop_first();
        let rest = keys.remove(x);
        assert forall|k: usize| #[trigger] rest.contains(k) <==> t1.contains(k) by {
            if t1.contains(k) {
                let a = choose|a: int| 0 <= a < t1.len() && t1[a] == k;
                assert(o1[a + 1] == k);
                assert(o1.contains(k));
                assert(module_before(cache, o1[0], o1[a + 1]));
                lemma_before_asymmetric(cache, x, k);
            }
            if rest.contains(k) {
                assert(o1.contains(k));
                let a = choose|a: int| 0 <= a < o1.len() && o1[a] == k;
                assert(a != 0);
                assert(t1[a - 1] == k);
            }
        }
        assert forall|k: usize| #[trigger] rest.contains(k) <==> t2.contains(k) by {
            if t2.contains(k) {
                let a = choose|a: int| 0 <= a < t2.len() && t2[a] == k;
                assert(o2[a + 1] == k);
                assert(o2.contains(k));
                assert(module_before(cache, o2[0], o2[a + 1]));
                lemma_before_asymmetric(cache, y, k);
            }
            if rest.contains(k) {
                assert(o2.contains(k));
                let a = choose|a: int| 0 <= a < o2.len() && o2[a] == k;
                assert(a != 0);
                assert(t2[a - 1] == k);
            }
        }
        assert(modules_ascending(cache, t1)) by {
            assert forall|a: int, b: int| 0 <= a < b < t1.len() implies module_before(
                cache,
                #[trigger] t1[a],
                #[trigger] t1[b],
            ) by {
                assert(t1[a] == o1[a + 1] && t1[b] == o1[b + 1]);
            }
        }
        assert(modules_ascending(cache, t2)) by {
            assert forall|a: int, b: int| 0 <= a < b < t2.len() implies module_before(
                cache,
                #[trigger] t2[a],
                #[trigger] t2[b],
            ) by {
                assert(t2[a] == o2[a + 1] && t2[b] == o2[b + 1]);
            }
        }
        lemma_sorted_unique(cache, t1, t2, rest);
        assert(o1 =~= o2) by {
            assert forall|a: int| 0 <= a < o1.len() implies o1[a] == o2[a] by {
                if a > 0 {
                    assert(o1[a] == t1[a - 1]);
                    assert(o2[a] == t2[a - 1]);
                }
            }
        }
    }
}

/// A listing of exactly the modules of a cache, each before every later
/// one, is the listing order of the cache: that order is determined.
pub proof fn sorted_listing_is_module_order(cache: Map<usize, Seq<char>>, order: Seq<usize>)
    requires
        sorted_modules(cache, order),
    ensures
        module_order(cache) == order,
{
    let chosen = module_order(cache);
    assert(sorted_modules(cache, chosen));
    lemma_sorted_unique(cache, chosen, order, cache.dom());
}

/// Inserting `x` at `p`, after every module before it and before every
/// module after it, keeps a listing ascending.
proof fn lemma_insert_ascending(cache: Map<usize, Seq<char>>, order: Seq<usize>, p: int, x: usize)
    requires
        modules_ascending(cache, order),
        0 <= p <= order.len(),
        forall|a: int| 0 <= a < p ==> module_before(cache, #[trigger] order[a], x),
        forall|a: int| p <= a < order.len() ==> module_before(cache, x, #[trigger] order[a]),
    ensures
        modules_ascending(cache, order.insert(p, x)),
{
    let n = order.insert(p, x);
    assert forall|a: int, b: int| 0 <= a < b < n.len() implies module_before(
        cache,
        #[trigger] n[a],
        #[trigger] n[b],
    ) by {
        if a < p {
            assert(n[a] == order[a]);
            if b < p {
                assert(n[b] == order[b]);
            } else if b == p {
                assert(n[b] == x);
            } else {
                assert(n[b] == order[b - 1]);
            }
        } else if a == p {
            assert(n[a] == x);
            assert(n[b] == order[b - 1]);
        } else {
            assert(n[a] == order[a - 1]);
            assert(n[b] == order[b - 1]);
        }
    }
}

/// A listed module: its index, its name and its lowercased name.
struct ListedModule {
    index: usize,
    name: String,
    lower: String,
}

/// The indices of listed modules.
spec fn listed_indices(s: Seq<ListedModule>) -> Seq<usize> {
    s.map_values(|m: ListedModule| m.index)
}

/// The number of relocations of `rs` that name, through `cache`, a module
/// called `name`.
pub open spec fn import_count(
    rs: Seq<RelocationEntry>,
    cache: Map<usize, Seq<char>>,
    name: Seq<char>,
) -> nat
    decreases rs.len(),
{
    if rs.len() == 0 {
        0
    } else {
        import_count(rs.drop_last(), cache, name) + match spec_mod_ref_index(rs.last()) {
            Some(k) => if cached_module_name(cache, k) == name {
                1nat
            } else {
                0nat
            },
            None => 0nat,
        }
    }
}

/// The row of a module: its name, its 1-based index and its import count.
pub open spec fn import_row(name: Seq<char>, index: usize, count: nat) -> Seq<char> {
    "  "@ + pad_right(name, 20) + "  "@ + pad_left(dec_chars((index + 1) as nat), 10) + "  "@ + pad_left(
        dec_chars(count),
        6,
    ) + "\n"@
}

/// A module's row shows its name left-aligned in 20 columns, then its
/// 1-based index right-aligned in 10 and its import count right-aligned in
/// 6, each in decimal.
pub proof fn import_row_reads_back(name: Seq<char>, index: usize, count: nat)
    ensures
        exists|x: Seq<char>, y: Seq<char>|
            #![trigger crate::text::dec_text(x, index + 1), crate::text::dec_text(y, count as int)]
            crate::text::dec_text(x, index + 1) && crate::text::dec_text(y, count as int)
                && import_row(name, index, count) == "  "@ + pad_right(name, 20) + "  "@ + pad_left(
                x,
                10,
            ) + "  "@ + pad_left(y, 6) + "\n"@,
{
    crate::text::dec_chars_reads_back((index + 1) as nat);
    crate::text::dec_chars_reads_back(count);
    let x = dec_chars((index + 1) as nat);
    let y = dec_chars(count);
    assert(crate::text::dec_text(x, index + 1));
    assert(crate::text::dec_text(y, count as int));
}

/// The rows of the modules of `order`.
pub open spec fn import_rows(
    order: Seq<usize>,
    cache: Map<usize, Seq<char>>,
    rs: Seq<RelocationEntry>,
) -> Seq<char>
    decreases order.len(),
{
    if order.len() == 0 {
        Seq::empty()
    } else {
        let k = order.last();
        import_rows(order.drop_last(), cache, rs) + import_row(
            cache[k],
            k,
            import_count(rs, cache, cache[k]),
        )
    }
}

/// The column titles of the imports table and their rule.
pub open spec fn imports_head() -> Seq<char> {
    "  "@ + pad_right("Module"@, 20) + "  "@ + pad_left("ModRefIdx"@, 10) + "  "@ + pad_left(
        "Procs"@,
        6,
    ) + "\n"@ + "  --------------------  ----------  --------\n"@
}

/// The imports block of the detailed report: a note when there is no
/// module reference table or no module name; else a row per module, in
/// listing order, with the number of relocations that name it. `None`
/// when the relocation blocks cannot be located, or a relocation is an
/// import with module reference 0.
pub open spec fn spec_detailed_imports(b: Seq<u8>, hr: Result<ImageOS2Header, Error>) -> Option<
    Seq<char>,
> {
    match spec_module_refs(b, hr) {
        Err(_) => Some("  No module reference table.\n"@),
        Ok(_) => {
            let cache = spec_module_cache(b, hr);
            if cache.dom() == Set::<usize>::empty() {
                Some("  No imports.\n"@)
            } else if !relocs_defined(b, hr) {
                None
            } else {
                let rs = match spec_relocation_table(b, hr) {
                    Ok(rs) => rs,
                    Err(_) => Seq::empty(),
                };
                if !relocs_printable(rs) {
                    None
                } else {
                    Some(imports_head() + import_rows(module_order(cache), cache, rs))
                }
            }
        },
    }
}

/// The modules of `cache` with an index below `n`, in listing order.
fn list_modules(cache: &HashMap<usize, String>, n: usize) -> (r: Vec<ListedModule>)
    ensures
        forall|k: usize|
            #![trigger cache@.contains_key(k)]
            #![trigger listed_indices(r@).contains(k)]
            (k < n && cache@.contains_key(k)) <==> listed_indices(r@).contains(k),
        modules_ascending(cache_text(cache@), listed_indices(r@)),
        forall|a: int|
            0 <= a < r@.len() ==> cache@.contains_key(#[trigger] r@[a].index) && r@[a].index < n
                && r@[a].name@ == cache_text(cache@)[r@[a].index],
{
    broadcast use vstd::std_specs::hash::group_hash_axioms;

    let ghost c = cache_text(cache@);
    let mut listed: Vec<ListedModule> = Vec::new();
    let mut i: usize = 0;
    while i < n
        invariant
            c == cache_text(cache@),
            i <= n,
            forall|k: usize|
                #![trigger cache@.contains_key(k)]
                #![trigger listed_indices(listed@).contains(k)]
                (k < i && cache@.contains_key(k)) <==> listed_indices(listed@).contains(k),
            modules_ascending(c, listed_indices(listed@)),
            forall|a: int|
                0 <= a < listed@.len() ==> cache@.contains_key(#[trigger] listed@[a].index)
                    && listed@[a].index < i && listed@[a].name@ == c[listed@[a].index]
                    && listed@[a].lower@ == lower_name(c, listed@[a].index),
        decreases n - i,
    {
        match cache.get(&i) {
            Some(name) => {
                let lower = to_lowercase(name.as_str());
                let ghost order = listed_indices(listed@);
                let mut p: usize = 0;
                while p < listed.len() && !str_less(lower.as_str(), listed[p].lower.as_str())
                    invariant
                        p <= listed@.len(),
                        lower@ == lower_name(c, i),
                        forall|a: int|
                            0 <= a < p ==> !lex_less(lower@, #[trigger] listed@[a].lower@),
                    decreases listed@.len() - p,
                {
                    p = p + 1;
                }
                proof {
                    assert(c[i] == name@);
                    assert forall|a: int| 0 <= a < p implies module_before(
                        c,
                        #[trigger] order[a],
                        i,
                    ) by {
                        assert(order[a] == listed@[a].index);
                        let x = lower_name(c, order[a]);
                        if x != lower@ {
                            lemma_lex_total(x, lower@);
                        }
                    }
                    assert forall|a: int| p <= a < order.len() implies module_before(
                        c,
                        i,
                        #[trigger] order[a],
                    ) by {
                        assert(order[a] == listed@[a].index);
                        assert(order[p as int] == listed@[p as int].index);
                        if a > p {
                            assert(module_before(c, order[p as int], order[a]));
                            let y = lower_name(c, order[p as int]);
                            let z = lower_name(c, order[a]);
                            if lex_less(y, z) {
                                lemma_lex_transitive(lower@, y, z);
                            }
                        }
                    }
                    lemma_insert_ascending(c, order, p as int, i);
                }
                let item = ListedModule { index: i, name: name.clone(), lower };
                listed.insert(p, item);
                proof {
                    assert(listed_indices(listed@) =~= order.insert(p as int, i));
                    assert forall|k: usize|
                        #![trigger cache@.contains_key(k)]
                        #![trigger listed_indices(listed@).contains(k)]
                        (k < i + 1 && cache@.contains_key(k)) <==> listed_indices(
                            listed@,
                        ).contains(k) by {
                        let now = listed_indices(listed@);
                        if k < i && cache@.contains_key(k) {
                            assert(order.contains(k));
                            let a = choose|a: int| 0 <= a < order.len() && order[a] == k;
                            if a < p {
                                assert(now[a] == k);
                            } else {
                                assert(now[a + 1] == k);
                            }
                        }
                        if k == i {
                            assert(now[p as int] == k);
                        }
                        if now.contains(k) {
                            let a = choose|a: int| 0 <= a < now.len() && now[a] == k;
                            if a < p {
                                assert(order[a] == k);
                                assert(order.contains(k));
                            } else if a > p {
                                assert(order[a - 1] == k);
                                assert(order.contains(k));
                            }
                        }
                    }
                }
            },
            None => {},
        }
        i = i + 1;
    }
    listed
}

/// The number of relocations of `entries` that name, through `cache`, a
/// module called `name`. No import may have module reference 0.
fn count_imports(entries: &Vec<RelocationEntry>, cache: &HashMap<usize, String>, name: &String) -> (r:
    usize)
    requires
        relocs_printable(entries@),
    ensures
        r == import_count(entries@, cache_text(cache@), name@),
{
    let ghost rs = entries@;
    let ghost c = cache_text(cache@);
    let mut count: usize = 0;
    let mut i: usize = 0;
    proof {
        assert(rs.subrange(0, 0) =~= Seq::<RelocationEntry>::empty());
    }
    while i < entries.len()
        invariant
            rs == entries@,
            c == cache_text(cache@),
            relocs_printable(rs),
            i <= rs.len(),
            count == import_count(rs.subrange(0, i as int), c, name@),
            count <= i,
        decreases rs.len() - i,
    {
        let e = &entries[i];
        proof {
            assert(rs.subrange(0, i + 1).drop_last() =~= rs.subrange(0, i as int));
            assert(rs.subrange(0, i + 1).last() == rs[i as int]);
        }
        match e.mod_ref_index() {
            Some(k) => {
                assert(spec_mod_ref_index(rs[i as int]) != Some(0u16));
                let label = module_label(cache, k);
                if label == *name {
                    count = count + 1;
                }
            },
            None => {},
        }
        i = i + 1;
    }
    assert(rs.subrange(0, i as int) =~= rs);
    count
}

/// Whether a relocation imports from the module called `name`: it imports
/// by ordinal or by name, and its module reference `target1` (1-based)
/// names, through `cache`, that module (an index not in the cache is
/// labelled `??(target1)`).
pub open spec fn imports_from(
    e: RelocationEntry,
    cache: Map<usize, Seq<char>>,
    name: Seq<char>,
) -> bool {
    &&& (e.relocation_type == RelocationType::Ordinal || e.relocation_type
        == RelocationType::Name)
    &&& (if cache.contains_key((e.target1 - 1) as usize) {
        cache[(e.target1 - 1) as usize]
    } else {
        "??("@ + dec_chars(e.target1 as nat) + ")"@
    }) == name
}

/// A module's import count is the number of relocations that import from
/// it, by ordinal or by name alike: those that `imports_from` keeps.
pub proof fn import_count_counts_imports_by_ordinal_and_name(
    rs: Seq<RelocationEntry>,
    cache: Map<usize, Seq<char>>,
    name: Seq<char>,
)
    ensures
        import_count(rs, cache, name) == rs.filter(
            |e: RelocationEntry| imports_from(e, cache, name),
        ).len(),
    decreases rs.len(),
{
    reveal(Seq::filter);
    if rs.len() > 0 {
        import_count_counts_imports_by_ordinal_and_name(rs.drop_last(), cache, name);
    }
}

/// The imports block of the detailed report.
pub fn detailed_imports<P: NE>(ne: &P) -> (r: Option<String>)
    requires
        addressable(ne.bytes()),
    ensures
        r is None <==> spec_detailed_imports(ne.bytes(), ne.spec_valid_ne_header()) is None,
        r matches Some(s) ==> spec_detailed_imports(ne.bytes(), ne.spec_valid_ne_header()) == Some(
            s@,
        ),
{
    let ghost b = ne.bytes();
    let ghost hr = ne.spec_valid_ne_header();
    let table = match ModuleRefTable::parse(ne) {
        Ok(t) => t,
        Err(_) => return Some(String::from_str("  No module reference table.\n")),
    };
    let cache = module_cache_or_empty(ne);
    let ghost c = spec_module_cache(b, hr);
    let listed = list_modules(&cache, table.offsets.len());
    let ghost order = listed_indices(listed@);
    if listed.len() == 0 {
        assert forall|k: usize| !c.contains_key(k) by {
            if c.contains_key(k) {
                assert(cache@.contains_key(k));
                assert(k < table.offsets.len());
                assert(order.contains(k));
            }
        }
        assert(c.dom() =~= Set::<usize>::empty());
        return Some(String::from_str("  No imports.\n"));
    }
    assert(c.dom() != Set::<usize>::empty()) by {
        assert(order.contains(order[0]));
        assert(c.dom().contains(order[0]));
    }
    proof {
        assert forall|k: usize|
            #![trigger c.contains_key(k)]
            #![trigger order.contains(k)]
            c.contains_key(k) <==> order.contains(k) by {
            if c.contains_key(k) {
                assert(cache@.contains_key(k));
            }
        }
        sorted_listing_is_module_order(c, order);
    }
    if !reloc_blocks_addressable(ne) {
        return None;
    }
    let entries = match RelocationTable::parse(ne) {
        Ok(t) => t.entries,
        Err(_) => Vec::new(),
    };
    let ghost rs = entries@;
    assert(rs == match spec_relocation_table(b, hr) {
        Ok(rs) => rs,
        Err(_) => Seq::<RelocationEntry>::empty(),
    });
    let mut j: usize = 0;
    while j < entries.len()
        invariant
            rs == entries@,
            b == ne.bytes(),
            hr == ne.spec_valid_ne_header(),
            spec_module_refs(b, hr) is Ok,
            c == spec_module_cache(b, hr),
            c.dom() != Set::<usize>::empty(),
            relocs_defined(b, hr),
            rs == match spec_relocation_table(b, hr) {
                Ok(rs) => rs,
                Err(_) => Seq::<RelocationEntry>::empty(),
            },
            j <= rs.len(),
            relocs_printable(rs.subrange(0, j as int)),
        decreases rs.len() - j,
    {
        if entries[j].mod_ref_index() == Some(0u16) {
            assert(!relocs_printable(rs)) by {
                assert(rs[j as int] == entries@[j as int]);
            }
            return None;
        }
        proof {
            let sub = rs.subrange(0, j + 1);
            assert forall|a: int| 0 <= a < sub.len() implies spec_mod_ref_index(
                #[trigger] sub[a],
            ) != Some(0u16) by {
                if a < j {
                    assert(sub[a] == rs.subrange(0, j as int)[a]);
                }
            }
        }
        j = j + 1;
    }
    assert(rs.subrange(0, j as int) =~= rs);
    let mut out = String::from_str("  ");
    push_left_aligned(&mut out, "Module", 20);
    out.append("  ");
    push_right_aligned(&mut out, "ModRefIdx", 10);
    out.append("  ");
    push_right_aligned(&mut out, "Procs", 6);
    out.append("\n");
    out.append("  --------------------  ----------  --------\n");
    let ghost head = out@;
    assert(head == imports_head());
    let mut i: usize = 0;
    proof {
        assert(order.subrange(0, 0) =~= Seq::<usize>::empty());
        assert(out@ =~= head + import_rows(order.subrange(0, 0), c, rs));
    }
    while i < listed.len()
        invariant
            rs == entries@,
            relocs_printable(rs),
            c == cache_text(cache@),
            order == listed_indices(listed@),
            i <= listed@.len(),
            forall|a: int|
                0 <= a < listed@.len() ==> cache@.contains_key(#[trigger] listed@[a].index)
                    && listed@[a].index < usize::MAX && listed@[a].name@ == c[listed@[a].index],
            out@ == head + import_rows(order.subrange(0, i as int), c, rs),
        decreases listed@.len() - i,
    {
        let item = &listed[i];
        proof {
            assert(order.subrange(0, i + 1).drop_last() =~= order.subrange(0, i as int));
            assert(order.subrange(0, i + 1).last() == item.index);
        }
        let count = count_imports(&entries, &cache, &item.name);
        let mut row = String::from_str("  ");
        push_left_aligned(&mut row, item.name.as_str(), 20);
        row.append("  ");
        push_dec_aligned(&mut row, (item.index + 1) as u64, 10);
        row.append("  ");
        push_dec_aligned(&mut row, count as u64, 6);
        row.append("\n");
        out.append(row.as_str());
        i = i + 1;
    }
    assert(order.subrange(0, i as int) =~= order);
    Some(out)
}

} // verus!
