use vstd::prelude::*;
use vstd::string::*;
use crate::ansi::{palette_color, palette_color_at, Color};

verus! {

/// Position of the first entry of `tags` equal to `t` (meaningful only when
/// `tags` contains `t`).
pub open spec fn first_index(tags: Seq<Seq<char>>, t: Seq<char>) -> int
    decreases tags.len(),
{
    if tags.len() == 0 {
        0
    } else if tags[0] == t {
        0
    } else {
        1 + first_index(tags.drop_first(), t)
    }
}

/// The registry contents after `t` has been looked up: unchanged when `t` is
/// already registered, extended by `t` at the end otherwise.
pub open spec fn registry_after(tags: Seq<Seq<char>>, t: Seq<char>) -> Seq<Seq<char>> {
    if tags.contains(t) {
        tags
    } else {
        tags.push(t)
    }
}

/// The color a lookup of `t` yields against registry contents `tags`: the
/// palette entry at `t`'s first-appearance position.
pub open spec fn color_for(tags: Seq<Seq<char>>, t: Seq<char>) -> Color {
    if tags.contains(t) {
        palette_color(first_index(tags, t))
    } else {
        palette_color(tags.len() as int)
    }
}

proof fn lemma_first_index_at(tags: Seq<Seq<char>>, t: Seq<char>, i: int)
    requires
        0 <= i < tags.len(),
        tags[i] == t,
        forall|k: int| 0 <= k < i ==> tags[k] != t,
    ensures
        tags.contains(t),
        first_index(tags, t) == i,
    decreases i,
{
    assert(tags.contains(t)) by {
        assert(tags[i] == t);
    }
    if i > 0 {
        lemma_first_index_at(tags.drop_first(), t, i - 1);
    }
}

/// Stream-wide mapping from tag name to display color, assigned in
/// first-appearance order from the fixed palette.
pub struct TagColorRegistry {
    pub tags: Vec<String>,
}

impl View for TagColorRegistry {
    type V = Seq<Seq<char>>;

    open spec fn view(&self) -> Seq<Seq<char>> {
        self.tags@.map_values(|t: String| t@)
    }
}

impl TagColorRegistry {
    /// A registry never holds the same tag twice.
    pub open spec fn wf(&self) -> bool {
        forall|i: int, j: int| 0 <= i < j < self@.len() ==> self@[i] != self@[j]
    }

    /// An empty registry, the state at the start of a stream.
    pub fn new() -> (r: Self)
        ensures
            r@ == Seq::<Seq<char>>::empty(),
            r.wf(),
    {
        let r = TagColorRegistry { tags: Vec::new() };
        proof {
            assert(r@ =~= Seq::<Seq<char>>::empty());
        }
        r
    }

    /// The color of `tag`: the one already assigned to it if it has been
    /// seen, else the next unused palette entry, which `tag` keeps from
    /// then on.
    pub fn get_tag_color(&mut self, tag: &str) -> (c: Color)
        requires
            old(self).wf(),
        ensures
            final(self).wf(),
            final(self)@ == registry_after(old(self)@, tag@),
            c == color_for(old(self)@, tag@),
    {
        let t0 = String::from_str(tag);
        let n = self.tags.len();
        let mut i: usize = 0;
        while i < n
            invariant
                i <= n,
                n == self.tags.len(),
                *self == *old(self),
                old(self).wf(),
                t0@ == tag@,
                forall|k: int| 0 <= k < i ==> self@[k] != tag@,
            decreases n - i,
        {
            proof {
                assert(self@[i as int] == self.tags@.map_values(|t: String| t@)[i as int]);
                assert(self@[i as int] == self.tags@[i as int]@);
            }
            if self.tags[i] == t0 {
                proof {
                    assert(self.tags@[i as int]@ == t0@);
                    assert(self@[i as int] == tag@);
                    lemma_first_index_at(self@, tag@, i as int);
                }
                return palette_color_at(i);
            }
            i = i + 1;
        }
        proof {
            assert(forall|k: int| 0 <= k < self@.len() ==> self@[k] != tag@);
            assert(!self@.contains(tag@));
        }
        let idx = self.tags.len();
        let c = palette_color_at(idx);
        self.tags.push(t0);
        proof {
            assert(self@ =~= old(self)@.push(tag@));
        }
        c
    }
}

} // verus!
