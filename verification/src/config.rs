use vstd::prelude::*;
use vstd::string::StrSliceExecFns;

verus! {

/// Raw configuration: groups of source descriptors as they appear in the
/// configuration file.
#[derive(Debug, Clone)]
pub struct Config {
    pub sources: Vec<SourcesGroup>,
}

#[derive(Debug, Clone)]
pub struct SourcesGroup {
    pub combine: Option<String>,
    pub lrng: Vec<LrngConfig>,
    pub file: Vec<FileConfig>,
}

/// Descriptor of an OS RNG source.
#[derive(Debug, Clone, PartialEq)]
pub struct LrngConfig {
    pub id: String,
    pub enabled: bool,
    /// Optional buffer capacity, in mebibytes; `None` means unbuffered.
    pub buffer_mebibytes: Option<u32>,
}

/// Descriptor of a file-backed source.
#[derive(Debug, Clone, PartialEq)]
pub struct FileConfig {
    pub id: String,
    pub path: String,
    /// Wrap the read cursor to offset 0 on end-of-file.
    pub loop_: Option<bool>,
    pub enabled: bool,
    /// Optional buffer capacity, in mebibytes; `None` means unbuffered.
    pub buffer_mebibytes: Option<u32>,
}

/// How per-source yields are combined into one output.
#[derive(Debug, Clone, Copy, PartialEq, Eq, Structural)]
pub enum CombineMode {
    Xor,
}

/// Enabled, validated, de-duplicated source descriptors, in configuration
/// order; the only form the aggregator accepts.
#[derive(Debug, Clone)]
pub struct FlattenedConfig {
    pub combine: CombineMode,
    pub lrng_sources: Vec<LrngConfig>,
    pub file_sources: Vec<FileConfig>,
}

/// ASCII lower-case letter or digit.
pub open spec fn is_lc_alnum_spec(c: char) -> bool {
    (('a' as u32) <= (c as u32) && (c as u32) <= ('z' as u32)) || (('0' as u32) <= (c as u32)
        && (c as u32) <= ('9' as u32))
}

/// Character allowed after the first position of a source id.
pub open spec fn is_id_char(c: char) -> bool {
    is_lc_alnum_spec(c) || c == '-' || c == '_'
}

/// Valid source id: `[a-z0-9][a-z0-9_-]*`.
pub open spec fn valid_id(s: Seq<char>) -> bool {
    &&& s.len() > 0
    &&& is_lc_alnum_spec(s[0])
    &&& forall|i: int| 1 <= i < s.len() ==> is_id_char(#[trigger] s[i])
}

pub fn is_lc_alnum(c: char) -> (r: bool)
    ensures
        r == is_lc_alnum_spec(c),
{
    let u = c as u32;
    (97 <= u && u <= 122) || (48 <= u && u <= 57)
}

pub fn is_valid_id(s: &str) -> (r: bool)
    ensures
        r == valid_id(s@),
{
    let n = s.unicode_len();
    if n == 0 {
        return false;
    }
    if !is_lc_alnum(s.get_char(0)) {
        return false;
    }
    let mut i: usize = 1;
    while i < n
        invariant
            1 <= i <= n,
            n == s@.len(),
            is_lc_alnum_spec(s@[0]),
            forall|k: int| 1 <= k < i ==> is_id_char(#[trigger] s@[k]),
        decreases n - i,
    {
        let c = s.get_char(i);
        if !(is_lc_alnum(c) || c == '-' || c == '_') {
            return false;
        }
        i = i + 1;
    }
    true
}

/// Whether `seen` already holds `id`.
pub open spec fn seen_contains(seen: Seq<Seq<char>>, id: Seq<char>) -> bool {
    exists|j: int| 0 <= j < seen.len() && seen[j] == id
}

/// The id views recorded so far.
pub open spec fn id_views(seen: Seq<String>) -> Seq<Seq<char>> {
    seen.map_values(|s: String| s@)
}

fn id_seen(seen: &Vec<String>, id: &String) -> (r: bool)
    ensures
        r == seen_contains(id_views(seen@), id@),
{
    let mut j: usize = 0;
    while j < seen.len()
        invariant
            j <= seen@.len(),
            forall|k: int| 0 <= k < j ==> seen@[k]@ != id@,
        decreases seen@.len() - j,
    {
        if seen[j].eq(id) {
            proof {
                assert(id_views(seen@)[j as int] == id@);
            }
            return true;
        }
        j = j + 1;
    }
    proof {
        assert forall|k: int| 0 <= k < id_views(seen@).len() implies id_views(seen@)[k] != id@ by {
            assert(id_views(seen@)[k] == seen@[k]@);
        }
    }
    false
}

/// An enabled entry with a valid id not recorded in `seen` is kept.
pub open spec fn keep_lrng(e: LrngConfig, seen: Seq<Seq<char>>) -> bool {
    e.enabled && valid_id(e.id@) && !seen_contains(seen, e.id@)
}

pub open spec fn keep_file(e: FileConfig, seen: Seq<Seq<char>>) -> bool {
    e.enabled && valid_id(e.id@) && !seen_contains(seen, e.id@)
}

/// Entries kept from one list of OS RNG descriptors, first to last, and the
/// ids recorded afterwards. Skipped entries (disabled, invalid id, or a
/// duplicate of an earlier kept id) leave `seen` unchanged.
pub open spec fn process_lrng(entries: Seq<LrngConfig>, seen: Seq<Seq<char>>) -> (Seq<LrngConfig>, Seq<
    Seq<char>,
>)
    decreases entries.len(),
{
    if entries.len() == 0 {
        (Seq::<LrngConfig>::empty(), seen)
    } else {
        let e = entries[0];
        if keep_lrng(e, seen) {
            let (rest, seen2) = process_lrng(entries.drop_first(), seen.push(e.id@));
            (seq![e] + rest, seen2)
        } else {
            process_lrng(entries.drop_first(), seen)
        }
    }
}

/// As `process_lrng`, for file descriptors.
pub open spec fn process_file(entries: Seq<FileConfig>, seen: Seq<Seq<char>>) -> (Seq<FileConfig>, Seq<
    Seq<char>,
>)
    decreases entries.len(),
{
    if entries.len() == 0 {
        (Seq::<FileConfig>::empty(), seen)
    } else {
        let e = entries[0];
        if keep_file(e, seen) {
            let (rest, seen2) = process_file(entries.drop_first(), seen.push(e.id@));
            (seq![e] + rest, seen2)
        } else {
            process_file(entries.drop_first(), seen)
        }
    }
}

/// Descriptors kept from all groups in order; within a group the OS RNG list
/// is processed before the file list, and the id record is shared across
/// kinds and groups.
pub open spec fn process_groups(groups: Seq<SourcesGroup>, seen: Seq<Seq<char>>) -> (
    Seq<LrngConfig>,
    Seq<FileConfig>,
    Seq<Seq<char>>,
)
    decreases groups.len(),
{
    if groups.len() == 0 {
        (Seq::<LrngConfig>::empty(), Seq::<FileConfig>::empty(), seen)
    } else {
        let g = groups[0];
        let (l1, seen1) = process_lrng(g.lrng@, seen);
        let (f1, seen2) = process_file(g.file@, seen1);
        let (lr, fr, seen3) = process_groups(groups.drop_first(), seen2);
        (l1 + lr, f1 + fr, seen3)
    }
}

/// Flatten the grouped configuration into the enabled, validated,
/// de-duplicated descriptor lists the aggregator is built from.
pub fn flatten_config(cfg: Config) -> (r: FlattenedConfig)
    ensures
        r.combine == CombineMode::Xor,
        r.lrng_sources@ == process_groups(cfg.sources@, Seq::<Seq<char>>::empty()).0,
        r.file_sources@ == process_groups(cfg.sources@, Seq::<Seq<char>>::empty()).1,
{
    let ghost target = process_groups(cfg.sources@, Seq::<Seq<char>>::empty());
    let mut lrng_sources: Vec<LrngConfig> = Vec::new();
    let mut file_sources: Vec<FileConfig> = Vec::new();
    let mut seen_ids: Vec<String> = Vec::new();
    let mut groups = cfg.sources;
    proof {
        assert(id_views(seen_ids@) =~= Seq::<Seq<char>>::empty());
        assert(lrng_sources@ + target.0 =~= target.0);
        assert(file_sources@ + target.1 =~= target.1);
    }
    while groups.len() > 0
        invariant
            lrng_sources@ + process_groups(groups@, id_views(seen_ids@)).0 == target.0,
            file_sources@ + process_groups(groups@, id_views(seen_ids@)).1 == target.1,
        decreases groups@.len(),
    {
        let ghost groups0 = groups@;
        let group = groups.remove(0);
        proof {
            assert(groups@ =~= groups0.drop_first());
        }
        let ghost seen_g = id_views(seen_ids@);
        let ghost lrng_g = lrng_sources@;
        let ghost file_g = file_sources@;

        let mut entries = group.lrng;
        let ghost entries0 = entries@;
        while entries.len() > 0
            invariant
                file_sources@ == file_g,
                lrng_sources@ + process_lrng(entries@, id_views(seen_ids@)).0 == lrng_g
                    + process_lrng(entries0, seen_g).0,
                process_lrng(entries@, id_views(seen_ids@)).1 == process_lrng(entries0, seen_g).1,
            decreases entries@.len(),
        {
            let ghost es0 = entries@;
            let e = entries.remove(0);
            proof {
                assert(entries@ =~= es0.drop_first());
            }
            if e.enabled {
                if is_valid_id(e.id.as_str()) {
                    if !id_seen(&seen_ids, &e.id) {
                        let ghost seen_before = seen_ids@;
                        seen_ids.push(e.id.clone());
                        proof {
                            assert(id_views(seen_ids@) =~= id_views(seen_before).push(e.id@));
                        }
                        let ghost l_before = lrng_sources@;
                        lrng_sources.push(e);
                        proof {
                            assert(lrng_sources@ + process_lrng(entries@, id_views(seen_ids@)).0
                                =~= l_before + (seq![e] + process_lrng(entries@, id_views(
                                seen_ids@,
                            )).0));
                        }
                    }
                }
            }
        }
        proof {
            assert(process_lrng(entries@, id_views(seen_ids@)).0 =~= Seq::<LrngConfig>::empty());
            assert(lrng_sources@ =~= lrng_sources@ + Seq::<LrngConfig>::empty());
            assert(lrng_sources@ == lrng_g + process_lrng(entries0, seen_g).0);
        }
        let ghost seen_f = id_views(seen_ids@);
        let ghost lrng_f = lrng_sources@;

        let mut fentries = group.file;
        let ghost fentries0 = fentries@;
        while fentries.len() > 0
            invariant
                lrng_sources@ == lrng_f,
                file_sources@ + process_file(fentries@, id_views(seen_ids@)).0 == file_g
                    + process_file(fentries0, seen_f).0,
                process_file(fentries@, id_views(seen_ids@)).1 == process_file(fentries0, seen_f).1,
            decreases fentries@.len(),
        {
            let ghost fs0 = fentries@;
            let e = fentries.remove(0);
            proof {
                assert(fentries@ =~= fs0.drop_first());
            }
            if e.enabled {
                if is_valid_id(e.id.as_str()) {
                    if !id_seen(&seen_ids, &e.id) {
                        let ghost seen_before = seen_ids@;
                        seen_ids.push(e.id.clone());
                        proof {
                            assert(id_views(seen_ids@) =~= id_views(seen_before).push(e.id@));
                        }
                        let ghost f_before = file_sources@;
                        file_sources.push(e);
                        proof {
                            assert(file_sources@ + process_file(fentries@, id_views(seen_ids@)).0
                                =~= f_before + (seq![e] + process_file(fentries@, id_views(
                                seen_ids@,
                            )).0));
                        }
                    }
                }
            }
        }
        proof {
            assert(process_file(fentries@, id_views(seen_ids@)).0 =~= Seq::<FileConfig>::empty());
            assert(file_sources@ =~= file_sources@ + Seq::<FileConfig>::empty());
            assert(file_sources@ == file_g + process_file(fentries0, seen_f).0);
            // one unfolding of the group recursion
            assert(process_groups(groups0, seen_g).0 == process_lrng(entries0, seen_g).0
                + process_groups(groups0.drop_first(), id_views(seen_ids@)).0);
            assert(process_groups(groups0, seen_g).1 == process_file(fentries0, seen_f).0
                + process_groups(groups0.drop_first(), id_views(seen_ids@)).1);
            assert((lrng_g + process_lrng(entries0, seen_g).0) + process_groups(
                groups@,
                id_views(seen_ids@),
            ).0 =~= lrng_g + (process_lrng(entries0, seen_g).0 + process_groups(
                groups@,
                id_views(seen_ids@),
            ).0));
            assert((file_g + process_file(fentries0, seen_f).0) + process_groups(
                groups@,
                id_views(seen_ids@),
            ).1 =~= file_g + (process_file(fentries0, seen_f).0 + process_groups(
                groups@,
                id_views(seen_ids@),
            ).1));
        }
    }
    proof {
        assert(lrng_sources@ =~= lrng_sources@ + Seq::<LrngConfig>::empty());
        assert(file_sources@ =~= file_sources@ + Seq::<FileConfig>::empty());
    }
    FlattenedConfig { combine: CombineMode::Xor, lrng_sources, file_sources }
}

} // verus!
