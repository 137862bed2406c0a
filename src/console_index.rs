use vstd::prelude::*;

verus! {

/// Number of sparse world layers stacked between the base console and the UI console.
pub const LAYER_COUNT: usize = 3;

/// The console slots that the terminal registers, in registration order.
#[derive(Clone, Copy, Debug, PartialEq, Eq)]
pub struct ConsoleIndex {
    pub base: usize,
    pub layers: [usize; 3],
    pub ui: usize,
}

impl ConsoleIndex {
    /// Slots of all layers, base first and UI last.
    pub open spec fn all_view(&self) -> Seq<usize> {
        seq![self.base] + self.layers@ + seq![self.ui]
    }

    /// Slots of the world layers, optionally preceded by the base.
    pub open spec fn world_view(&self, include_base: bool) -> Seq<usize> {
        if include_base {
            seq![self.base] + self.layers@
        } else {
            self.layers@
        }
    }

    /// The layout the terminal is built with: base at 0, layers at 1..=3, UI right after.
    pub fn standard() -> (r: ConsoleIndex)
        ensures
            r.base == 0,
            r.layers@ == seq![1usize, 2, 3],
            r.ui == LAYER_COUNT + 1,
    {
        let r = ConsoleIndex { base: 0, layers: [1, 2, 3], ui: LAYER_COUNT + 1 };
        assert(r.layers@ =~= seq![1usize, 2, 3]);
        r
    }

    pub fn get_all_indices(&self) -> (indices: Vec<usize>)
        ensures
            indices@ == self.all_view(),
    {
        let mut indices: Vec<usize> = Vec::new();
        indices.push(self.base);
        let mut i: usize = 0;
        while i < LAYER_COUNT
            invariant
                i <= LAYER_COUNT,
                indices@ == seq![self.base] + self.layers@.take(i as int),
            decreases LAYER_COUNT - i,
        {
            indices.push(self.layers[i]);
            assert(self.layers@.take(i as int + 1) =~= self.layers@.take(i as int).push(self.layers@[i as int]));
            i += 1;
        }
        assert(self.layers@.take(3) =~= self.layers@);
        indices.push(self.ui);
        indices
    }

    pub fn get_world_indices(&self, include_base: bool) -> (indices: Vec<usize>)
        ensures
            indices@ == self.world_view(include_base),
    {
        let mut indices: Vec<usize> = Vec::new();
        if include_base {
            indices.push(self.base);
        }
        let ghost prefix = indices@;
        let mut i: usize = 0;
        while i < LAYER_COUNT
            invariant
                i <= LAYER_COUNT,
                prefix == (if include_base { seq![self.base] } else { Seq::<usize>::empty() }),
                indices@ == prefix + self.layers@.take(i as int),
            decreases LAYER_COUNT - i,
        {
            indices.push(self.layers[i]);
            assert(self.layers@.take(i as int + 1) =~= self.layers@.take(i as int).push(self.layers@[i as int]));
            i += 1;
        }
        assert(self.layers@.take(3) =~= self.layers@);
        assert(indices@ =~= self.world_view(include_base));
        indices
    }
}

/// Startup assertion that a console landed in the slot planned for it. A console in
/// any other slot is a fatal configuration error, so callers compare the two first and
/// stop there; this function only admits the matching case.
pub fn check_console_index(expected: usize, actual: usize)
    requires
        expected == actual,
{
}

} // verus!
