//! Functions and tapes that share their data.
use crate::alu::Alu;
use crate::alu::ScalarFn;
use crate::raster::tiles::TileSizes;
use crate::raster::tiles::tile_sizes_2d;
use crate::raster::tiles::tile_sizes_3d;
use crate::shell::interval::ShellIntervalTrace;
use crate::vm::choice::Choice;
use crate::vm::data::NativeRenderMetadata;
use crate::vm::data::VmData;
use crate::vm::trace::VmTrace;
use std::sync::Arc;
use vstd::prelude::*;

verus! {

/// Tape storage type which indicates that there's no actual backing storage
#[derive(Clone, Copy, Debug, PartialEq, Eq, Structural)]
pub struct EmptyTapeStorage;

impl Default for EmptyTapeStorage {
    fn default() -> (r: Self)
        ensures
            r == EmptyTapeStorage,
    {
        EmptyTapeStorage
    }
}

/// Makes another pointer to what an `Arc` points to, by `Arc::clone`.
///
/// The clone points to the same allocation, so the values behind both are the
/// same.
#[verifier::external_body]
fn share<T>(pointer: &Arc<T>) -> (r: Arc<T>)
    ensures
        r == *pointer,
{
    Arc::clone(pointer)
}

/// Takes the value out of an `Arc`, by `Arc::try_unwrap`.
///
/// If this is the only pointer, its value is returned, else the pointer itself;
/// whether it is depends on the other pointers, of which nothing is said.
#[verifier::external_body]
fn take<T>(pointer: Arc<T>) -> (r: Result<T, Arc<T>>)
    ensures
        match r {
            Ok(value) => value == *pointer,
            Err(same) => same == pointer,
        },
{
    Arc::try_unwrap(pointer)
}

/// What is reclaimed by an attempt to take data out of its last reference: the
/// data if it was taken, nothing if other references are left.
pub fn reclaimed<const N: usize>(taken: Result<VmData<N>, Arc<VmData<N>>>) -> (r: Option<
    VmData<N>,
>)
    ensures
        r == (match taken {
            Ok(data) => Some(data),
            Err(_) => None::<VmData<N>>,
        }),
{
    match taken {
        Ok(data) => Some(data),
        Err(_) => None,
    }
}

/// Tape which uses the VM backend for evaluation
///
/// This tape type is equivalent to a [`GenericVmFunction`]; it is what the
/// evaluators take.
pub struct GenericVmTape<const N: usize> {
    shared: Arc<VmData<N>>,
}

impl<const N: usize> Clone for GenericVmTape<N> {
    /// Makes another tape that shares the data.
    fn clone(&self) -> (r: Self)
        ensures
            r == *self,
    {
        GenericVmTape { shared: share(&self.shared) }
    }
}

impl<const N: usize> GenericVmTape<N> {
    /// The data of the tape.
    pub closed spec fn inner(&self) -> VmData<N> {
        *self.shared
    }

    /// Returns a handle to the inner [`VmData`] used by the tape
    pub fn data(&self) -> (r: &VmData<N>)
        ensures
            *r == self.inner(),
    {
        &*self.shared
    }

    /// Gives up the tape; there is no storage to be reused.
    pub fn recycle(self) -> (r: Option<EmptyTapeStorage>)
        ensures
            r == Some(EmptyTapeStorage),
    {
        Some(EmptyTapeStorage)
    }

    /// Returns the number of variables of the tape.
    pub fn var_count(&self) -> (r: usize)
        ensures
            r == self.inner().inputs(),
    {
        self.shared.var_count()
    }

    /// Returns the number of outputs of the tape.
    pub fn output_count(&self) -> (r: usize)
        ensures
            r == self.inner().outputs(),
    {
        self.shared.output_count()
    }
}

/// A choice slice whose length is not the number of choices of the tape.
#[derive(Clone, Copy, Debug, PartialEq, Eq, Structural)]
pub struct BadChoiceSlice {
    /// Number of choices given.
    pub actual: usize,
    /// Number of choices of the tape.
    pub expected: usize,
}

/// Error type for simplification
#[derive(Clone, Copy, Debug, PartialEq, Eq, Structural)]
pub struct BadTrace(pub BadChoiceSlice);

/// VM-backed function with a configurable number of registers
pub struct GenericVmFunction<const N: usize> {
    shared: Arc<VmData<N>>,
}

/// Function which uses the VM backend for evaluation
///
/// All of the tapes simply share the data of the function; there's no separate
/// planning required to generate a tape.
pub type VmFunction = GenericVmFunction<255>;

impl<const N: usize> Clone for GenericVmFunction<N> {
    /// Makes another function that shares the data.
    fn clone(&self) -> (r: Self)
        ensures
            r == *self,
    {
        GenericVmFunction { shared: share(&self.shared) }
    }
}

impl<const N: usize> GenericVmFunction<N> {
    /// The data of the function.
    pub closed spec fn inner(&self) -> VmData<N> {
        *self.shared
    }

    /// Builds a function from its data.
    pub fn new(data: VmData<N>) -> (r: Self)
        ensures
            r.inner() == data,
    {
        GenericVmFunction { shared: Arc::new(data) }
    }

    /// Returns a characteristic size (the length of the inner assembly tape)
    pub fn size(&self) -> (r: usize)
        ensures
            r == self.inner().ops().len(),
    {
        self.shared.len()
    }

    /// Reclaim the inner `VmData` if there's only a single reference
    ///
    /// Whether there are other references is not part of the value, so only what
    /// is reclaimed is stated; [`reclaimed`] says what either outcome gives.
    pub fn recycle(self) -> (r: Option<VmData<N>>)
        ensures
            r matches Some(data) ==> data == self.inner(),
    {
        reclaimed(take(self.shared))
    }

    /// Borrows the inner [`VmData`]
    pub fn data(&self) -> (r: &VmData<N>)
        ensures
            *r == self.inner(),
    {
        &*self.shared
    }

    /// Returns a [`GenericVmTape`] for the given function
    pub fn tape(&self) -> (r: GenericVmTape<N>)
        ensures
            r.inner() == self.inner(),
    {
        GenericVmTape { shared: share(&self.shared) }
    }

    /// Returns the tape for float slice evaluation.
    pub fn float_slice_tape(&self, _storage: EmptyTapeStorage) -> (r: GenericVmTape<N>)
        ensures
            r.inner() == self.inner(),
    {
        self.tape()
    }

    /// Returns the tape for gradient slice evaluation.
    pub fn grad_slice_tape(&self, _storage: EmptyTapeStorage) -> (r: GenericVmTape<N>)
        ensures
            r.inner() == self.inner(),
    {
        self.tape()
    }

    /// Returns the tape for point evaluation.
    pub fn point_tape(&self, _storage: EmptyTapeStorage) -> (r: GenericVmTape<N>)
        ensures
            r.inner() == self.inner(),
    {
        self.tape()
    }

    /// Returns the tape for interval evaluation.
    pub fn interval_tape(&self, _storage: EmptyTapeStorage) -> (r: GenericVmTape<N>)
        ensures
            r.inner() == self.inner(),
    {
        self.tape()
    }

    /// Returns the number of choices (i.e. `min` and `max` nodes) in the tape
    pub fn choice_count(&self) -> (r: usize)
        ensures
            r == self.inner().choices(),
    {
        self.shared.choice_count()
    }

    /// Returns the number of outputs in the tape
    pub fn output_count(&self) -> (r: usize)
        ensures
            r == self.inner().outputs(),
    {
        self.shared.output_count()
    }

    /// Returns whether a trace may simplify the function.
    pub fn can_simplify(&self) -> (r: bool)
        ensures
            r == (self.inner().choices() > 0),
    {
        self.shared.choice_count() > 0
    }

    /// Simplifies the function with the given trace and a new register count
    ///
    /// `simplify` reduces the data by the choices and the shell traces of the
    /// trace; its result becomes the new function, and its error a bad trace.
    pub fn simplify_with<
        const M: usize,
        S: Fn(&VmData<N>, &[Choice], &[Option<ShellIntervalTrace>]) -> Result<
            VmData<M>,
            BadChoiceSlice,
        >,
    >(&self, trace: &VmTrace, simplify: S) -> (r: Result<GenericVmFunction<M>, BadTrace>)
        requires
            forall|
                data: &VmData<N>,
                choices: &[Choice],
                shells: &[Option<ShellIntervalTrace>],
            |
                *data == self.inner() && choices@ == trace.choices() && shells@ == trace.shells()
                    ==> #[trigger] call_requires(simplify, (data, choices, shells)),
        ensures
            exists|
                data: &VmData<N>,
                choices: &[Choice],
                shells: &[Option<ShellIntervalTrace>],
                reduced: Result<VmData<M>, BadChoiceSlice>,
            |
                {
                    &&& *data == self.inner()
                    &&& choices@ == trace.choices()
                    &&& shells@ == trace.shells()
                    &&& #[trigger] call_ensures(simplify, (data, choices, shells), reduced)
                    &&& match reduced {
                        Ok(d) => r matches Ok(function) && function.inner() == d,
                        Err(e) => r == Err::<GenericVmFunction<M>, BadTrace>(BadTrace(e)),
                    }
                },
    {
        let data = self.data();
        let choices = trace.as_slice();
        let shells = trace.shell_traces();
        let reduced = simplify(data, choices, shells);
        assert(call_ensures(simplify, (data, choices, shells), reduced));
        match reduced {
            Ok(d) => Ok(GenericVmFunction::new(d)),
            Err(e) => Err(BadTrace(e)),
        }
    }

    /// Returns what a renderer can learn of the native shells.
    pub fn native_render_metadata<A: ScalarFn>(&self, alu: &Alu<A>) -> (r: Option<
        NativeRenderMetadata,
    >)
        ensures
            r is Some <==> self.inner().shells().len() > 0,
            r matches Some(metadata) ==> {
                &&& metadata.global_aabb == Some(
                    crate::shell::bounds::ShellBounds::empty().with_points(
                        crate::vm::data::shell_corners(self.inner().shells()),
                    ),
                )
                &&& metadata.shell_segment_aabbs@ == crate::vm::data::shell_boxes(
                    alu,
                    self.inner().shells(),
                )
            },
    {
        self.shared.native_render_metadata(alu)
    }

    /// Returns whether there is anything to learn of native shells.
    pub fn has_native_render_metadata(&self) -> (r: bool)
        ensures
            r == (self.inner().shells().len() > 0),
    {
        self.shared.shell_topologies().len() > 0
    }

    /// Returns the tile sizes to render with in 3D.
    pub fn tile_sizes_3d() -> (r: TileSizes)
        ensures
            r@ == seq![128usize, 64, 32, 16, 8],
    {
        tile_sizes_3d()
    }

    /// Returns the tile sizes to render with in 2D.
    pub fn tile_sizes_2d() -> (r: TileSizes)
        ensures
            r@ == seq![128usize, 32, 8],
    {
        tile_sizes_2d()
    }
}

} // verus!
