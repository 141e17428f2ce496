//! What is particular to the UMC202HD interface: the stream configurations
//! that it takes, and how its device nodes are told from others.

use vstd::prelude::*;
use crate::abi::{oa_sample_format, oa_stream_config};
use crate::listing::texts;
use crate::text::{
    before, chars_of, comes_before, contains, lemma_before_asymmetric, lemma_before_irreflexive,
    lemma_before_total, lemma_before_transitive, normalized, normalized_chars, same, spec_contains,
    text_of,
};

verus! {

/// Whether the interface runs at the given sample rate.
pub open spec fn spec_rate_supported(rate: u32) -> bool {
    rate == 44100 || rate == 48000 || rate == 88200 || rate == 96000 || rate == 176400 || rate
        == 192000
}

#[verifier::when_used_as_spec(spec_rate_supported)]
pub fn rate_supported(rate: u32) -> (r: bool)
    ensures
        r == spec_rate_supported(rate),
{
    rate == 44100 || rate == 48000 || rate == 88200 || rate == 96000 || rate == 176400 || rate
        == 192000
}

/// Why the interface does not take a configuration: the first of its rules
/// that the configuration breaks, or `None` if it breaks none.
pub open spec fn rejection(cfg: oa_stream_config) -> Option<Seq<char>> {
    if cfg.format != oa_sample_format::OA_SAMPLE_F32 {
        Some("UMC202HD driver only supports float32"@)
    } else if cfg.out_channels != 2 {
        Some("UMC202HD playback requires 2 channels"@)
    } else if cfg.in_channels != 0 && cfg.in_channels != 2 {
        Some("UMC202HD capture supports 0 or 2 channels"@)
    } else if !spec_rate_supported(cfg.sample_rate) {
        Some("unsupported sample rate"@)
    } else if cfg.buffer_frames == 0 {
        Some("buffer must be > 0"@)
    } else {
        None
    }
}

/// Whether a configuration lies in the interface's matrix of formats,
/// channel counts and sample rates.
pub open spec fn spec_in_matrix(cfg: oa_stream_config) -> bool {
    &&& cfg.format == oa_sample_format::OA_SAMPLE_F32
    &&& cfg.out_channels == 2
    &&& (cfg.in_channels == 0 || cfg.in_channels == 2)
    &&& spec_rate_supported(cfg.sample_rate)
}

/// Whether a configuration lies in the interface's matrix.
pub fn in_matrix(cfg: &oa_stream_config) -> (r: bool)
    ensures
        r == spec_in_matrix(*cfg),
{
    let float = match cfg.format {
        oa_sample_format::OA_SAMPLE_F32 => true,
        _ => false,
    };
    float && cfg.out_channels == 2 && (cfg.in_channels == 0 || cfg.in_channels == 2)
        && rate_supported(cfg.sample_rate)
}

/// Whether the interface takes a configuration: one of its matrix, with a
/// period of at least one frame.
pub open spec fn supported(cfg: oa_stream_config) -> bool {
    spec_in_matrix(cfg) && cfg.buffer_frames > 0
}

/// Checks a configuration against what the interface takes.
pub fn validate_config(cfg: &oa_stream_config) -> (r: Result<(), String>)
    ensures
        r is Ok <==> supported(*cfg),
        match r {
            Ok(_) => rejection(*cfg) is None,
            Err(msg) => rejection(*cfg) == Some(msg@),
        },
{
    match cfg.format {
        oa_sample_format::OA_SAMPLE_F32 => {},
        _ => {
            return Err("UMC202HD driver only supports float32".to_owned());
        },
    }
    if cfg.out_channels != 2 {
        return Err("UMC202HD playback requires 2 channels".to_owned());
    }
    if cfg.in_channels != 0 && cfg.in_channels != 2 {
        return Err("UMC202HD capture supports 0 or 2 channels".to_owned());
    }
    if !rate_supported(cfg.sample_rate) {
        return Err("unsupported sample rate".to_owned());
    }
    if cfg.buffer_frames == 0 {
        return Err("buffer must be > 0".to_owned());
    }
    Ok(())
}

/// A text without its ASCII white space and in lower case.
pub fn normalize(s: &str) -> (r: String)
    ensures
        r@ == normalized(s@),
{
    let chars = normalized_chars(s);
    text_of(&chars)
}

/// Whether a text names the interface, however it is spaced and cased.
pub open spec fn names_umc202hd(s: Seq<char>) -> bool {
    spec_contains(normalized(s), "umc202hd"@)
}

/// Whether a device hint, by its name or its description, is one of the
/// interface.
pub open spec fn spec_hint_matches(name: Option<Seq<char>>, desc: Option<Seq<char>>) -> bool {
    ||| name matches Some(n) && names_umc202hd(n)
    ||| desc matches Some(d) && names_umc202hd(d)
}

/// Whether a device hint, by its name or its description, is one of the
/// interface.
pub fn hint_matches_umc202hd(name: Option<&str>, desc: Option<&str>) -> (r: bool)
    ensures
        r == spec_hint_matches(
            match name {
                Some(n) => Some(n@),
                None => None,
            },
            match desc {
                Some(d) => Some(d@),
                None => None,
            },
        ),
{
    let needle = chars_of("umc202hd");
    let by_name = match name {
        Some(n) => contains(&normalized_chars(n), &needle),
        None => false,
    };
    if by_name {
        return true;
    }
    match desc {
        Some(d) => contains(&normalized_chars(d), &needle),
        None => false,
    }
}

/// What the sound system says of one device node.
#[derive(Debug)]
pub struct DeviceHint {
    pub name: Option<String>,
    pub desc: Option<String>,
}

impl DeviceHint {
    pub open spec fn name_view(self) -> Option<Seq<char>> {
        match self.name {
            Some(n) => Some(n@),
            None => None,
        }
    }

    pub open spec fn desc_view(self) -> Option<Seq<char>> {
        match self.desc {
            Some(d) => Some(d@),
            None => None,
        }
    }

    /// Whether the hint is one of the interface and names its node.
    pub open spec fn usable(self) -> bool {
        self.name is Some && spec_hint_matches(self.name_view(), self.desc_view())
    }
}

/// The node that is tried when the sound system lists none.
pub open spec fn fallback_device() -> Seq<char> {
    "hw:UMC202HD"@
}

/// The names of the hints that are of the interface, in the order of the
/// hints.
pub open spec fn matching_names(hints: Seq<DeviceHint>) -> Seq<Seq<char>>
    decreases hints.len(),
{
    if hints.len() == 0 {
        Seq::empty()
    } else if hints.last().usable() {
        matching_names(hints.drop_last()).push(hints.last().name_view().unwrap())
    } else {
        matching_names(hints.drop_last())
    }
}

/// The nodes that the interface may be reached by: those that the hints
/// name, or the fallback node if they name none.
pub open spec fn device_pool(hints: Seq<DeviceHint>) -> Seq<Seq<char>> {
    if matching_names(hints).len() == 0 {
        seq![fallback_device()]
    } else {
        matching_names(hints)
    }
}

/// Each name comes strictly before the next, so none occurs twice.
pub open spec fn ascending(names: Seq<Seq<char>>) -> bool {
    forall|i: int, j: int| 0 <= i < j < names.len() ==> before(#[trigger] names[i], #[trigger] names[j])
}

/// An ascending list is determined by what it holds: two ascending lists
/// that hold the same names are the same list.
pub proof fn lemma_ascending_unique(a: Seq<Seq<char>>, b: Seq<Seq<char>>)
    requires
        ascending(a),
        ascending(b),
        forall|n: Seq<char>| #[trigger] a.contains(n) <==> b.contains(n),
    ensures
        a == b,
    decreases a.len(),
{
    if a.len() == 0 {
        if b.len() > 0 {
            assert(b.contains(b[0]));
            assert(a.contains(b[0]));
        }
        assert(a =~= b);
    } else if b.len() == 0 {
        assert(a.contains(a[0]));
    } else {
        // Both lists start with the first of their names.
        assert(a.contains(a[0]) && b.contains(b[0]));
        assert(b.contains(a[0]) && a.contains(b[0]));
        let i = choose|i: int| 0 <= i < b.len() && b[i] == a[0];
        let j = choose|j: int| 0 <= j < a.len() && a[j] == b[0];
        if i > 0 && j > 0 {
            assert(before(b[0], b[i]) && before(a[0], a[j]));
            lemma_before_asymmetric(a[0], b[0]);
        }
        if i > 0 && j == 0 {
            assert(before(b[0], b[i]));
            lemma_before_irreflexive(a[0]);
        }
        assert(a[0] == b[0]);
        let ta = a.drop_first();
        let tb = b.drop_first();
        assert forall|n: Seq<char>| #[trigger] ta.contains(n) <==> tb.contains(n) by {
            if ta.contains(n) {
                let k = choose|k: int| 0 <= k < ta.len() && ta[k] == n;
                assert(a[k + 1] == n);
                assert(before(a[0], a[k + 1]));
                assert(a.contains(n));
                assert(b.contains(n));
                let m = choose|m: int| 0 <= m < b.len() && b[m] == n;
                if m == 0 {
                    lemma_before_irreflexive(n);
                }
                assert(tb[m - 1] == n);
            }
            if tb.contains(n) {
                let k = choose|k: int| 0 <= k < tb.len() && tb[k] == n;
                assert(b[k + 1] == n);
                assert(before(b[0], b[k + 1]));
                assert(b.contains(n));
                assert(a.contains(n));
                let m = choose|m: int| 0 <= m < a.len() && a[m] == n;
                if m == 0 {
                    lemma_before_irreflexive(n);
                }
                assert(ta[m - 1] == n);
            }
        }
        assert forall|x: int, y: int| 0 <= x < y < ta.len() implies before(
            #[trigger] ta[x],
            #[trigger] ta[y],
        ) by {
            assert(before(a[x + 1], a[y + 1]));
        }
        assert forall|x: int, y: int| 0 <= x < y < tb.len() implies before(
            #[trigger] tb[x],
            #[trigger] tb[y],
        ) by {
            assert(before(b[x + 1], b[y + 1]));
        }
        lemma_ascending_unique(ta, tb);
        assert(a =~= seq![a[0]] + ta);
        assert(b =~= seq![b[0]] + tb);
    }
}

/// Puts a name into an ascending list, unless the list holds it already.
fn insert_name(out: &mut Vec<String>, name: String)
    requires
        ascending(texts(old(out)@)),
    ensures
        ascending(texts(final(out)@)),
        forall|n: Seq<char>| #[trigger]
            texts(final(out)@).contains(n) <==> (texts(old(out)@).contains(n) || n == name@),
{
    let ghost before_names = texts(out@);
    let key = chars_of(name.as_str());
    let mut p: usize = 0;
    while p < out.len()
        invariant
            p <= out@.len(),
            out@ == old(out)@,
            key@ == name@,
            ascending(texts(out@)),
            forall|k: int| 0 <= k < p ==> before(#[trigger] texts(out@)[k], name@),
        ensures
            p < out@.len() ==> !before(texts(out@)[p as int], name@) && texts(out@)[p as int]
                != name@,
        decreases out@.len() - p,
    {
        let here = chars_of(out[p].as_str());
        assert(here@ == texts(out@)[p as int]);
        if !comes_before(&here, &key) {
            if same(&here, &key) {
                proof {
                    assert(texts(out@)[p as int] == name@);
                    assert(texts(out@).contains(name@));
                }
                return ;
            }
            break ;
        }
        p += 1;
    }
    proof {
        if p < out@.len() {
            let at = texts(out@)[p as int];
            lemma_before_total(at, name@);
            assert(before(name@, at));
            assert forall|j: int| p < j < out@.len() implies before(
                name@,
                #[trigger] texts(out@)[j],
            ) by {
                lemma_before_transitive(name@, at, texts(out@)[j]);
            }
        }
    }
    out.insert(p, name);
    proof {
        let new_names = texts(out@);
        assert(new_names =~= before_names.insert(p as int, name@));
        assert forall|i: int, j: int| 0 <= i < j < new_names.len() implies before(
            #[trigger] new_names[i],
            #[trigger] new_names[j],
        ) by {
            if i < p && j < p {
                assert(new_names[i] == before_names[i] && new_names[j] == before_names[j]);
            } else if i < p && j == p {
                assert(new_names[i] == before_names[i]);
            } else if i < p && j > p {
                assert(new_names[i] == before_names[i] && new_names[j] == before_names[j - 1]);
            } else if i == p {
                assert(new_names[j] == before_names[j - 1]);
            } else {
                assert(new_names[i] == before_names[i - 1] && new_names[j] == before_names[j - 1]);
            }
        }
        assert forall|n: Seq<char>| #[trigger]
            new_names.contains(n) <==> (before_names.contains(n) || n == name@) by {
            if new_names.contains(n) {
                let i = choose|i: int| 0 <= i < new_names.len() && new_names[i] == n;
                if i < p {
                    assert(before_names[i] == n);
                } else if i > p {
                    assert(before_names[i - 1] == n);
                }
            }
            if before_names.contains(n) {
                let i = choose|i: int| 0 <= i < before_names.len() && before_names[i] == n;
                if i < p {
                    assert(new_names[i] == n);
                } else {
                    assert(new_names[i + 1] == n);
                }
            }
            if n == name@ {
                assert(new_names[p as int] == n);
            }
        }
    }
}

/// The device nodes of the interface among what the sound system lists, in
/// dictionary order and each once; the fallback node if it lists none.
pub fn enumerate_umc202hd_devices(hints: &Vec<DeviceHint>) -> (r: Vec<String>)
    ensures
        ascending(texts(r@)),
        forall|n: Seq<char>| #[trigger]
            texts(r@).contains(n) <==> device_pool(hints@).contains(n),
        r@.len() > 0,
{
    let mut out: Vec<String> = Vec::new();
    let mut i: usize = 0;
    while i < hints.len()
        invariant
            i <= hints@.len(),
            ascending(texts(out@)),
            forall|n: Seq<char>| #[trigger]
                texts(out@).contains(n) <==> matching_names(hints@.take(i as int)).contains(n),
        decreases hints@.len() - i,
    {
        let hint = &hints[i];
        let ghost seen = matching_names(hints@.take(i as int));
        proof {
            assert(hints@.take(i + 1).drop_last() =~= hints@.take(i as int));
            assert(hints@.take(i + 1).last() == *hint);
        }
        let name = match &hint.name {
            Some(n) => Some(n.as_str()),
            None => None,
        };
        let desc = match &hint.desc {
            Some(d) => Some(d.as_str()),
            None => None,
        };
        if hint_matches_umc202hd(name, desc) {
            match &hint.name {
                Some(n) => {
                    insert_name(&mut out, n.clone());
                    proof {
                        let grown = matching_names(hints@.take(i + 1));
                        assert(grown == seen.push(n@));
                        assert forall|m: Seq<char>| #[trigger]
                            grown.contains(m) <==> (seen.contains(m) || m == n@) by {
                            if grown.contains(m) {
                                let k = choose|k: int| 0 <= k < grown.len() && grown[k] == m;
                                if k < seen.len() {
                                    assert(seen[k] == m);
                                }
                            }
                            if seen.contains(m) {
                                let k = choose|k: int| 0 <= k < seen.len() && seen[k] == m;
                                assert(grown[k] == m);
                            }
                            if m == n@ {
                                assert(grown[seen.len() as int] == m);
                            }
                        }
                    }
                },
                None => {},
            }
        }
        i += 1;
    }
    proof {
        assert(hints@.take(hints@.len() as int) =~= hints@);
    }
    let ghost found = matching_names(hints@);
    if out.len() == 0 {
        proof {
            if found.len() > 0 {
                assert(found.contains(found[0]));
                assert(texts(out@).contains(found[0]));
            }
        }
        out.push("hw:UMC202HD".to_owned());
        proof {
            let names = texts(out@);
            assert(names =~= seq![fallback_device()]);
            assert forall|n: Seq<char>| #[trigger]
                names.contains(n) <==> device_pool(hints@).contains(n) by {
                if n == fallback_device() {
                    assert(names[0] == n);
                    assert(device_pool(hints@)[0] == n);
                }
            }
        }
    } else {
        proof {
            let names = texts(out@);
            assert(names.contains(names[0]));
            assert(found.contains(names[0]));
        }
    }
    out
}

/// The device node that the interface is opened by when the host names
/// none: the first, in dictionary order, of the nodes it may be reached by.
pub fn default_device_name(hints: &Vec<DeviceHint>) -> (r: String)
    ensures
        device_pool(hints@).contains(r@),
        forall|n: Seq<char>| #[trigger]
            device_pool(hints@).contains(n) ==> n == r@ || before(r@, n),
{
    let names = enumerate_umc202hd_devices(hints);
    let first = names[0].clone();
    proof {
        let all = texts(names@);
        assert(all.contains(all[0]));
        assert forall|n: Seq<char>| #[trigger]
            device_pool(hints@).contains(n) implies n == first@ || before(first@, n) by {
            assert(all.contains(n));
            let k = choose|k: int| 0 <= k < all.len() && all[k] == n;
            if k > 0 {
                assert(before(all[0], all[k]));
            }
        }
    }
    first
}

} // verus!
