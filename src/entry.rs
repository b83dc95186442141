//! Entry-code decisions and assembly tables, on plain descriptions of the
//! compiled program: which function runs, whether finalizing the segment
//! arena is allowed, where the syscall handler's segment lies, and the
//! offset→hints and string→hint lookups.
use vstd::prelude::*;
use vstd::string::StrSliceExecFns;
use crate::dispatch::str_is;
use std::collections::HashMap;

verus! {

/// Why entry code could not be built.
#[derive(Debug, Clone, Copy, PartialEq, Eq)]
pub enum BuildError {
    /// No function's name ends with the requested suffix.
    MissingFunction,
    /// The segment arena cannot be finalized while a returned value must not
    /// be dropped.
    SegmentArenaNotFinalizable,
}

impl BuildError {
    /// The message shown to the user, with the remedy where there is one.
    pub fn message(&self) -> (r: String)
        ensures
            match self {
                BuildError::MissingFunction => r@
                    == "Failed to find main function in script - please make sure `sierra-replace-ids` is not set to `false` for `dev` profile in script's Scarb.toml"@,
                BuildError::SegmentArenaNotFinalizable => r@
                    == "Cannot finalize the segment arena when returning non-droppable values."@,
            },
    {
        match self {
            BuildError::MissingFunction => "Failed to find main function in script - please make sure `sierra-replace-ids` is not set to `false` for `dev` profile in script's Scarb.toml".to_owned(),
            BuildError::SegmentArenaNotFinalizable => "Cannot finalize the segment arena when returning non-droppable values.".to_owned(),
        }
    }
}

/// What entry-code synthesis needs to know of a parameter or return type.
#[derive(Debug)]
pub struct TypeInfo {
    /// The generic type's identifier, such as `SegmentArena` or `felt252`.
    pub generic_id: String,
    /// The number of memory cells a value takes.
    pub size: usize,
    /// Whether a value may be dropped.
    pub droppable: bool,
    /// Whether the type is an ordinary value rather than a builtin counter.
    pub is_user_arg: bool,
}

pub open spec fn ends_with(s: Seq<char>, suffix: Seq<char>) -> bool {
    suffix.len() <= s.len() && s.subrange(s.len() - suffix.len(), s.len() as int) == suffix
}

pub open spec fn name_matches(name: Option<String>, suffix: Seq<char>) -> bool {
    match name {
        Some(n) => ends_with(n@, suffix),
        None => false,
    }
}

fn str_ends_with(s: &str, suffix: &str) -> (r: bool)
    ensures
        r == ends_with(s@, suffix@),
{
    let n = s.unicode_len();
    let m = suffix.unicode_len();
    if m > n {
        return false;
    }
    let mut k: usize = 0;
    while k < m
        invariant
            m <= n,
            n == s@.len(),
            m == suffix@.len(),
            k <= m,
            forall|j: int| 0 <= j < k ==> s@[n - m + j] == suffix@[j],
        decreases m - k,
    {
        if s.get_char(n - m + k) != suffix.get_char(k) {
            assert(s@.subrange(n - m, n as int)[k as int] != suffix@[k as int]);
            return false;
        }
        k = k + 1;
    }
    assert(s@.subrange(n - m, n as int) =~= suffix@);
    true
}

/// The index of the first function whose debug name ends with `name_suffix`.
pub fn find_function(debug_names: &Vec<Option<String>>, name_suffix: &str) -> (r: Result<usize, BuildError>)
    ensures
        match r {
            Ok(i) => i < debug_names@.len() && name_matches(debug_names@[i as int], name_suffix@)
                && forall|j: int| 0 <= j < i ==> !name_matches(#[trigger] debug_names@[j], name_suffix@),
            Err(e) => e == BuildError::MissingFunction && forall|j: int|
                0 <= j < debug_names@.len() ==> !name_matches(#[trigger] debug_names@[j], name_suffix@),
        },
{
    let mut i: usize = 0;
    while i < debug_names.len()
        invariant
            i <= debug_names@.len(),
            forall|j: int| 0 <= j < i ==> !name_matches(#[trigger] debug_names@[j], name_suffix@),
        decreases debug_names.len() - i,
    {
        match &debug_names[i] {
            Some(n) => {
                if str_ends_with(n.as_str(), name_suffix) {
                    return Ok(i);
                }
            },
            None => {},
        }
        i = i + 1;
    }
    Err(BuildError::MissingFunction)
}

/// Every returned value is a builtin counter or may be dropped.
pub open spec fn returns_droppable(ret_types: Seq<TypeInfo>) -> bool {
    forall|i: int| 0 <= i < ret_types.len() ==> #[trigger] ret_types[i].droppable || !ret_types[i].is_user_arg
}

/// Refuses to finalize the segment arena when a returned user value may not
/// be dropped.
pub fn check_finalization(ret_types: &Vec<TypeInfo>, finalize_segment_arena: bool) -> (r: Result<(), BuildError>)
    ensures
        r is Err <==> (finalize_segment_arena && !returns_droppable(ret_types@)),
        r is Err ==> r == Err::<(), BuildError>(BuildError::SegmentArenaNotFinalizable),
{
    if !finalize_segment_arena {
        return Ok(());
    }
    let mut i: usize = 0;
    while i < ret_types.len()
        invariant
            finalize_segment_arena,
            i <= ret_types@.len(),
            forall|j: int| 0 <= j < i ==> #[trigger] ret_types@[j].droppable || !ret_types@[j].is_user_arg,
        decreases ret_types.len() - i,
    {
        if !ret_types[i].droppable && ret_types[i].is_user_arg {
            assert(!(ret_types@[i as int].droppable || !ret_types@[i as int].is_user_arg));
            return Err(BuildError::SegmentArenaNotFinalizable);
        }
        i = i + 1;
    }
    Ok(())
}

/// One of the types is the segment arena, the counter for dynamic
/// allocation.
pub open spec fn spec_has_segment_arena(types: Seq<TypeInfo>) -> bool {
    exists|i: int| 0 <= i < types.len() && #[trigger] types[i].generic_id@ == "SegmentArena"@
}

pub fn has_segment_arena(param_types: &Vec<TypeInfo>) -> (r: bool)
    ensures
        r == spec_has_segment_arena(param_types@),
{
    let mut i: usize = 0;
    while i < param_types.len()
        invariant
            i <= param_types@.len(),
            forall|j: int| 0 <= j < i ==> #[trigger] param_types@[j].generic_id@ != "SegmentArena"@,
        decreases param_types.len() - i,
    {
        if str_is(param_types[i].generic_id.as_str(), "SegmentArena") {
            return true;
        }
        i = i + 1;
    }
    false
}

/// The index of the memory segment at which the syscall handler's segment
/// starts: after the two segments that always exist, one per builtin, and two
/// more when the segment arena is present.
pub fn syscall_handler_offset(builtins_len: usize, has_segment_arena: bool) -> (r: usize)
    requires
        builtins_len <= usize::MAX - 4,
    ensures
        r == 2 + builtins_len + if has_segment_arena { 2usize } else { 0usize },
{
    let base = 2 + builtins_len;
    if has_segment_arena {
        base + 2
    } else {
        base
    }
}

/// The lookups that the host needs from an assembled program's hints.
#[derive(Debug)]
pub struct HintTables {
    /// For each offset that carries hints, the canonical strings of its hints.
    pub by_offset: HashMap<usize, Vec<String>>,
    /// For each canonical string, where the hint stands: the index of the
    /// offset's entry in the input, and the hint's index there.
    pub by_string: Vec<(String, usize, usize)>,
}

fn copy_strings(v: &Vec<String>) -> (r: Vec<String>)
    ensures
        r@ == v@,
{
    let mut r: Vec<String> = Vec::new();
    let mut k: usize = 0;
    while k < v.len()
        invariant
            k <= v@.len(),
            r@ == v@.subrange(0, k as int),
        decreases v.len() - k,
    {
        r.push(v[k].clone());
        k = k + 1;
        assert(r@ =~= v@.subrange(0, k as int));
    }
    assert(v@.subrange(0, k as int) =~= v@);
    r
}

fn has_string(table: &Vec<(String, usize, usize)>, s: &String) -> (r: bool)
    ensures
        r == exists|b: int| 0 <= b < table@.len() && #[trigger] table@[b].0@ == s@,
{
    let mut a: usize = 0;
    while a < table.len()
        invariant
            a <= table@.len(),
            forall|b: int| 0 <= b < a ==> #[trigger] table@[b].0@ != s@,
        decreases table.len() - a,
    {
        if table[a].0 == *s {
            return true;
        }
        a = a + 1;
    }
    false
}

/// The offset→hints lookup that `hints` describes: entries are taken in
/// order, and a later entry for an offset replaces an earlier one.
pub open spec fn offset_map(hints: Seq<(usize, Vec<String>)>) -> Map<usize, Seq<String>>
    decreases hints.len(),
{
    if hints.len() == 0 {
        Map::empty()
    } else {
        offset_map(hints.drop_last()).insert(hints.last().0, hints.last().1@)
    }
}

/// The offset→hints lookup.
pub fn offset_table(hints: &Vec<(usize, Vec<String>)>) -> (r: HashMap<usize, Vec<String>>)
    ensures
        r@.dom() == offset_map(hints@).dom(),
        forall|o: usize| #[trigger] r@.contains_key(o) ==> r@[o]@ == offset_map(hints@)[o],
{
    broadcast use vstd::std_specs::hash::group_hash_axioms;

    let mut table: HashMap<usize, Vec<String>> = HashMap::new();
    let mut i: usize = 0;
    while i < hints.len()
        invariant
            i <= hints@.len(),
            table@.dom() == offset_map(hints@.subrange(0, i as int)).dom(),
            forall|o: usize| #[trigger] table@.contains_key(o) ==> table@[o]@ == offset_map(
                hints@.subrange(0, i as int),
            )[o],
        decreases hints.len() - i,
    {
        let ghost prefix = hints@.subrange(0, i + 1);
        assert(prefix.drop_last() =~= hints@.subrange(0, i as int));
        table.insert(hints[i].0, copy_strings(&hints[i].1));
        i = i + 1;
        assert(table@.dom() =~= offset_map(hints@.subrange(0, i as int)).dom());
    }
    assert(hints@.subrange(0, i as int) =~= hints@);
    table
}

/// The table has an entry for the string `s`.
pub open spec fn string_covered(table: Seq<(String, usize, usize)>, s: Seq<char>) -> bool {
    exists|a: int| 0 <= a < table.len() && #[trigger] table[a].0@ == s
}

/// Where the hint with string `s` stands in `hints`.
pub open spec fn places_hint(hints: Seq<(usize, Vec<String>)>, s: String, k: usize, j: usize) -> bool {
    k < hints.len() && j < hints[k as int].1@.len() && hints[k as int].1@[j as int]@ == s@
}

/// The string→hint lookup: each canonical string once, with a place where
/// a hint with that string stands. Identical strings thus resolve to one
/// hint.
pub fn string_table(hints: &Vec<(usize, Vec<String>)>) -> (r: Vec<(String, usize, usize)>)
    ensures
        forall|a: int, b: int| 0 <= a < b < r@.len() ==> #[trigger] r@[a].0@ != #[trigger] r@[b].0@,
        forall|a: int| 0 <= a < r@.len() ==> places_hint(hints@, (#[trigger] r@[a]).0, r@[a].1, r@[a].2),
        forall|k: int, j: int|
            0 <= k < hints@.len() && 0 <= j < hints@[k].1@.len() ==> string_covered(r@, (#[trigger] hints@[k].1@[j])@),
{
    let mut table: Vec<(String, usize, usize)> = Vec::new();
    let mut i: usize = 0;
    while i < hints.len()
        invariant
            i <= hints@.len(),
            forall|a: int, b: int| 0 <= a < b < table@.len() ==> #[trigger] table@[a].0@ != #[trigger] table@[b].0@,
            forall|a: int| 0 <= a < table@.len() ==> places_hint(hints@, (#[trigger] table@[a]).0, table@[a].1, table@[a].2),
            forall|k: int, j: int|
                0 <= k < i && 0 <= j < hints@[k].1@.len() ==> string_covered(table@, (#[trigger] hints@[k].1@[j])@),
        decreases hints.len() - i,
    {
        let entry = &hints[i].1;
        let mut j: usize = 0;
        while j < entry.len()
            invariant
                i < hints@.len(),
                entry@ == hints@[i as int].1@,
                j <= entry@.len(),
                forall|a: int, b: int| 0 <= a < b < table@.len() ==> #[trigger] table@[a].0@ != #[trigger] table@[b].0@,
                forall|a: int| 0 <= a < table@.len() ==> places_hint(hints@, (#[trigger] table@[a]).0, table@[a].1, table@[a].2),
                forall|k: int, jj: int|
                    0 <= k < i && 0 <= jj < hints@[k].1@.len() ==> string_covered(table@, (#[trigger] hints@[k].1@[jj])@),
                forall|jj: int| 0 <= jj < j ==> string_covered(table@, (#[trigger] hints@[i as int].1@[jj])@),
            decreases entry.len() - j,
        {
            let s = &entry[j];
            let ghost old_table = table@;
            if !has_string(&table, s) {
                table.push((s.clone(), i, j));
                assert forall|k: int, jj: int|
                    0 <= k < i && 0 <= jj < hints@[k].1@.len() implies string_covered(table@, (#[trigger] hints@[k].1@[jj])@) by {
                    assert(string_covered(old_table, (hints@[k].1@[jj])@));
                    let b = choose|b: int| 0 <= b < old_table.len() && #[trigger] old_table[b].0@ == (hints@[k].1@[jj])@;
                    assert(table@[b] == old_table[b]);
                }
                assert forall|jj: int| 0 <= jj < j + 1 implies string_covered(table@, (#[trigger] hints@[i as int].1@[jj])@) by {
                    if jj == j {
                        assert(table@[old_table.len() as int].0@ == (hints@[i as int].1@[jj])@);
                    } else {
                        assert(string_covered(old_table, (hints@[i as int].1@[jj])@));
                        let b = choose|b: int| 0 <= b < old_table.len() && #[trigger] old_table[b].0@ == (hints@[i as int].1@[jj])@;
                        assert(table@[b] == old_table[b]);
                    }
                }
            }
            j = j + 1;
        }
        assert forall|k: int, jj: int|
            0 <= k < i + 1 && 0 <= jj < hints@[k].1@.len() implies string_covered(table@, (#[trigger] hints@[k].1@[jj])@) by {
            if k == i {
                assert(hints@[k].1@[jj] == entry@[jj]);
            }
        }
        i = i + 1;
    }
    table
}

/// Builds the offset→hints and string→hint lookups from the hints of an
/// assembled program, given per offset as canonical strings.
pub fn hints_to_params(hints: &Vec<(usize, Vec<String>)>) -> (r: HintTables)
    ensures
        r.by_offset@.dom() == offset_map(hints@).dom(),
        forall|o: usize| #[trigger] r.by_offset@.contains_key(o) ==> r.by_offset@[o]@ == offset_map(hints@)[o],
        forall|a: int, b: int|
            0 <= a < b < r.by_string@.len() ==> #[trigger] r.by_string@[a].0@ != #[trigger] r.by_string@[b].0@,
        forall|a: int|
            0 <= a < r.by_string@.len() ==> places_hint(
                hints@,
                (#[trigger] r.by_string@[a]).0,
                r.by_string@[a].1,
                r.by_string@[a].2,
            ),
        forall|k: int, j: int|
            0 <= k < hints@.len() && 0 <= j < hints@[k].1@.len() ==> string_covered(
                r.by_string@,
                (#[trigger] hints@[k].1@[j])@,
            ),
{
    HintTables { by_offset: offset_table(hints), by_string: string_table(hints) }
}

} // verus!
