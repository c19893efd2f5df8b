//! Bookkeeping of the editor's thumbnail cache: which image paths hold a
//! texture, when each was last used, and which entry to evict when full.
use vstd::prelude::*;
use crate::strmap::StrMap;

verus! {

/// The cache's entries (image path to the frame of last use), its capacity
/// and the current frame.
pub struct ThumbnailCache {
    pub entries: StrMap<u64>,
    pub max_entries: usize,
    pub frame_counter: u64,
}

impl ThumbnailCache {
    /// An empty cache holding at most `max_entries` textures.
    pub fn new(max_entries: usize) -> (r: Self)
        ensures
            r.entries.map() == Map::<Seq<char>, u64>::empty(),
            r.max_entries == max_entries,
            r.frame_counter == 0,
    {
        ThumbnailCache { entries: StrMap::new(), max_entries, frame_counter: 0 }
    }

    /// A cache hit marks the entry used this frame; a miss changes nothing.
    pub fn touch(&mut self, path: &str) -> (hit: bool)
        ensures
            hit == old(self).entries.map().contains_key(path@),
            final(self).entries.map() == if hit {
                old(self).entries.map().insert(path@, old(self).frame_counter)
            } else {
                old(self).entries.map()
            },
            final(self).max_entries == old(self).max_entries,
            final(self).frame_counter == old(self).frame_counter,
    {
        if self.entries.contains_key(path) {
            self.entries.insert(path.to_string(), self.frame_counter);
            true
        } else {
            false
        }
    }

    /// Records a texture loaded for `path`, used this frame. When the cache
    /// is full, the least recently used entry is evicted first and returned
    /// (the first such entry in insertion order on a tie).
    pub fn insert_loaded(&mut self, path: String) -> (evicted: Option<String>)
        ensures
            final(self).max_entries == old(self).max_entries,
            final(self).frame_counter == old(self).frame_counter,
            ({
                let m = old(self).entries.map();
                match evicted {
                    Some(k) => {
                        &&& m.len() >= old(self).max_entries
                        &&& m.contains_key(k@)
                        &&& forall|j: Seq<char>| #[trigger] m.contains_key(j) ==> m[k@] <= m[j]
                        &&& final(self).entries.map() == m.remove(k@).insert(path@, old(self).frame_counter)
                    },
                    None => {
                        &&& (m.len() < old(self).max_entries || m.len() == 0)
                        &&& final(self).entries.map() == m.insert(path@, old(self).frame_counter)
                    },
                }
            }),
    {
        let evicted = if self.entries.len() >= self.max_entries {
            self.evict_lru()
        } else {
            None
        };
        self.entries.insert(path, self.frame_counter);
        evicted
    }

    /// Forgets the texture of `path` (its file changed).
    pub fn invalidate(&mut self, path: &str)
        ensures
            final(self).entries.map() == old(self).entries.map().remove(path@),
            final(self).max_entries == old(self).max_entries,
            final(self).frame_counter == old(self).frame_counter,
    {
        self.entries.remove(path);
    }

    /// Advances to the next frame.
    pub fn tick(&mut self)
        requires
            old(self).frame_counter < u64::MAX,
        ensures
            final(self).frame_counter == old(self).frame_counter + 1,
            final(self).entries == old(self).entries,
            final(self).max_entries == old(self).max_entries,
    {
        self.frame_counter = self.frame_counter + 1;
    }

    /// Removes and returns an entry with the smallest last use.
    fn evict_lru(&mut self) -> (evicted: Option<String>)
        ensures
            final(self).max_entries == old(self).max_entries,
            final(self).frame_counter == old(self).frame_counter,
            ({
                let m = old(self).entries.map();
                match evicted {
                    Some(k) => {
                        &&& m.contains_key(k@)
                        &&& forall|j: Seq<char>| #[trigger] m.contains_key(j) ==> m[k@] <= m[j]
                        &&& final(self).entries.map() == m.remove(k@)
                    },
                    None => m.len() == 0 && final(self).entries.map() == m,
                }
            }),
    {
        let n = self.entries.len();
        if n == 0 {
            return None;
        }
        proof {
            use_type_invariant(&self.entries);
            self.entries.lemma_entries();
        }
        let ghost e = self.entries.entries();
        let mut best: usize = 0;
        let mut i: usize = 1;
        while i < n
            invariant
                n == e.len(),
                e == self.entries.entries(),
                0 < n,
                best < i <= n,
                forall|k: int| 0 <= k < i ==> e[best as int].1 <= #[trigger] e[k].1,
            decreases n - i,
        {
            if *self.entries.value_at(i) < *self.entries.value_at(best) {
                best = i;
            }
            i = i + 1;
        }
        let key = self.entries.key_at(best).clone();
        proof {
            let m = self.entries.map();
            assert(m.contains_key(e[best as int].0));
            assert forall|j: Seq<char>| #[trigger] m.contains_key(j) implies m[key@] <= m[j] by {
                let k = choose|k: int| 0 <= k < e.len() && e[k].0 == j;
                assert(m[e[k].0] == e[k].1);
                assert(m[e[best as int].0] == e[best as int].1);
            }
        }
        self.entries.remove(key.as_str());
        Some(key)
    }
}

impl Default for ThumbnailCache {
    /// The default cache holds 128 textures.
    fn default() -> (r: Self)
        ensures
            r.entries.map() == Map::<Seq<char>, u64>::empty(),
            r.max_entries == 128,
            r.frame_counter == 0,
    {
        ThumbnailCache::new(128)
    }
}

/// The cache never holds more textures than its capacity (at least one):
/// recording a loaded path into a cache within capacity, after the eviction
/// that `insert_loaded` makes, keeps it within capacity.
pub proof fn law_cache_within_capacity(
    m: Map<Seq<char>, u64>,
    max: nat,
    path: Seq<char>,
    frame: u64,
    evicted: Option<Seq<char>>,
)
    requires
        m.dom().finite(),
        max >= 1,
        m.len() <= max,
        match evicted {
            Some(k) => m.len() >= max && m.contains_key(k),
            None => m.len() < max || m.len() == 0,
        },
    ensures
        match evicted {
            Some(k) => m.remove(k).insert(path, frame).len() <= max,
            None => m.insert(path, frame).len() <= max,
        },
{
    broadcast use vstd::map_lib::group_map_properties;

    match evicted {
        Some(k) => {
            let r = m.remove(k);
            assert(r.len() == m.len() - 1);
            if r.contains_key(path) {
                assert(r.insert(path, frame).dom() =~= r.dom());
            } else {
                assert(r.insert(path, frame).dom() =~= r.dom().insert(path));
            }
        },
        None => {
            if m.contains_key(path) {
                assert(m.insert(path, frame).dom() =~= m.dom());
            } else {
                assert(m.insert(path, frame).dom() =~= m.dom().insert(path));
            }
        },
    }
}

} // verus!
