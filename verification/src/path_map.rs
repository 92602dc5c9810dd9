//! The directories that a plugin may use: from the path on the host to the
//! path under which the plugin sees it.
//!
//! No two host paths are seen under one guest path. Mounting a host path
//! under a guest path that is taken puts it in place of the one that was
//! there: the last write wins.

use crate::text_map::{lemma_written_keys, lemma_written_value, TextMap};
use vstd::prelude::*;

verus! {

/// No two keys of the map have one value.
pub open spec fn one_to_one(m: Map<Seq<char>, Seq<char>>) -> bool {
    forall|a: Seq<char>, b: Seq<char>|
        m.contains_key(a) && m.contains_key(b) && a != b ==> #[trigger] m[a] != #[trigger] m[b]
}

/// The paths after the host path `src` was mounted under the guest path
/// `dest`: whatever was mounted under `dest` is gone, and so is what `src`
/// was mounted under before.
pub open spec fn mounted(
    paths: Map<Seq<char>, Seq<char>>,
    src: Seq<char>,
    dest: Seq<char>,
) -> Map<Seq<char>, Seq<char>> {
    Map::new(
        |k: Seq<char>| k == src || (paths.contains_key(k) && paths[k] != dest),
        |k: Seq<char>|
            if k == src {
                dest
            } else {
                paths[k]
            },
    )
}

/// The paths after each pair of `pairs` was mounted onto `base`, from first
/// to last.
pub open spec fn mounts(
    base: Map<Seq<char>, Seq<char>>,
    pairs: Seq<(Seq<char>, Seq<char>)>,
) -> Map<Seq<char>, Seq<char>>
    decreases pairs.len(),
{
    if pairs.len() == 0 {
        base
    } else {
        mounted(mounts(base, pairs.drop_last()), pairs.last().0, pairs.last().1)
    }
}

/// Mounting keeps guest paths apart.
pub proof fn lemma_mounted_one_to_one(
    paths: Map<Seq<char>, Seq<char>>,
    src: Seq<char>,
    dest: Seq<char>,
)
    requires
        one_to_one(paths),
    ensures
        one_to_one(mounted(paths, src, dest)),
        mounted(paths, src, dest).contains_key(src),
        mounted(paths, src, dest)[src] == dest,
{
    let m = mounted(paths, src, dest);
    assert forall|a: Seq<char>, b: Seq<char>|
        m.contains_key(a) && m.contains_key(b) && a != b implies #[trigger] m[a] != #[trigger] m[b] by {
        if a != src && b != src {
            assert(paths[a] != paths[b]);
        }
    }
}

/// Whatever is mounted, guest paths stay apart.
pub proof fn lemma_mounts_one_to_one(
    base: Map<Seq<char>, Seq<char>>,
    pairs: Seq<(Seq<char>, Seq<char>)>,
)
    requires
        one_to_one(base),
    ensures
        one_to_one(mounts(base, pairs)),
    decreases pairs.len(),
{
    if pairs.len() > 0 {
        lemma_mounts_one_to_one(base, pairs.drop_last());
        lemma_mounted_one_to_one(mounts(base, pairs.drop_last()), pairs.last().0, pairs.last().1);
    }
}

/// The directories that a plugin may use.
#[derive(Debug)]
pub struct PathMap {
    map: TextMap<String>,
}

impl View for PathMap {
    type V = Map<Seq<char>, Seq<char>>;

    closed spec fn view(&self) -> Map<Seq<char>, Seq<char>> {
        self.map@
    }
}

impl Clone for PathMap {
    /// The same paths.
    fn clone(&self) -> (copy: Self)
        ensures
            copy@ == self@,
            copy.pairs() == self.pairs(),
    {
        proof {
            use_type_invariant(self);
        }
        PathMap { map: self.map.clone() }
    }
}

impl PathMap {
    #[verifier::type_invariant]
    spec fn apart(&self) -> bool {
        one_to_one(self.map@)
    }

    /// The paths in the order in which they are held: host path first, then
    /// guest path.
    pub closed spec fn pairs(&self) -> Seq<(Seq<char>, Seq<char>)> {
        self.map.pairs()
    }

    /// No path.
    pub fn new() -> (paths: Self)
        ensures
            paths@ == Map::<Seq<char>, Seq<char>>::empty(),
            paths.pairs() == Seq::<(Seq<char>, Seq<char>)>::empty(),
    {
        PathMap { map: TextMap::new() }
    }

    /// The paths as a map from host path to guest path.
    pub fn as_map(&self) -> (map: &TextMap<String>)
        ensures
            map@ == self@,
            map.pairs() == self.pairs(),
            one_to_one(self@),
    {
        proof {
            use_type_invariant(self);
        }
        &self.map
    }

    /// Mounts the host path `src` under the guest path `dest`. What was
    /// mounted under `dest` before is no longer mounted, and `src` is no
    /// longer seen under another path.
    pub fn mount(&mut self, src: String, dest: String)
        ensures
            final(self)@ == mounted(old(self)@, src@, dest@),
    {
        proof {
            use_type_invariant(&*self);
        }
        let mut map: TextMap<String> = TextMap::new();
        core::mem::swap(&mut self.map, &mut map);
        let ghost before = map@;
        let ghost pairs = map.pairs();
        let n = map.len();
        let mut taken: Option<String> = None;
        let mut i: usize = 0;
        while i < n
            invariant_except_break
                taken is None,
                forall|j: int| 0 <= j < i ==> pairs[j].1 != dest@,
            invariant
                i <= n,
                n == map.pairs().len(),
                map.pairs() == pairs,
                map@ == before,
            ensures
                match taken {
                    Some(key) => before.contains_key(key@) && before[key@] == dest@,
                    None => forall|j: int| 0 <= j < pairs.len() ==> pairs[j].1 != dest@,
                },
            decreases n - i,
        {
            if *map.value_at(i) == dest {
                let key = map.key_at(i).clone();
                taken = Some(key);
                break;
            }
            i += 1;
        }
        match taken {
            Some(key) => {
                map.remove(key.as_str());
                map.insert(src, dest);
                proof {
                    assert forall|k: Seq<char>|
                        before.contains_key(k) && k != key@ implies before[k] != dest@ by {
                        assert(before[k] != before[key@]);
                    }
                    assert(map@ =~= mounted(before, src@, dest@));
                }
            },
            None => {
                proof {
                    assert forall|k: Seq<char>| before.contains_key(k) implies before[k]
                        != dest@ by {
                        lemma_written_keys(Map::empty(), pairs, k);
                        let j = choose|j: int| 0 <= j < pairs.len() && #[trigger] pairs[j].0 == k;
                        lemma_written_value(pairs, j);
                    }
                }
                map.insert(src, dest);
                proof {
                    assert(map@ =~= mounted(before, src@, dest@));
                }
            },
        }
        proof {
            lemma_mounted_one_to_one(before, src@, dest@);
        }
        core::mem::swap(&mut self.map, &mut map);
    }
}

} // verus!
