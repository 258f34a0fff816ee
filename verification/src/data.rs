//! The size record of one resource and the chunks planned for it.

use crate::planner::{is_partition, plan, planned, ChunkSpec, PlanError};
use crate::units::Units;
use vstd::prelude::*;

verus! {

/// The size of a resource, how it is shown, and its chunk plan.
pub struct Data {
    size: usize,
    human_readable_size: usize,
    unit: Units,
    chunk_count: usize,
    chunks: Vec<ChunkSpec>,
}

/// The mathematical content of a `Data`.
pub struct DataModel {
    pub size: nat,
    pub human_readable_size: nat,
    pub unit: Units,
    pub chunk_count: nat,
    pub chunks: Seq<ChunkSpec>,
}

impl View for Data {
    type V = DataModel;

    closed spec fn view(&self) -> DataModel {
        DataModel {
            size: self.size as nat,
            human_readable_size: self.human_readable_size as nat,
            unit: self.unit,
            chunk_count: self.chunk_count as nat,
            chunks: self.chunks@,
        }
    }
}

impl Data {
    /// A record for a resource of `size` bytes to be fetched in
    /// `chunk_count` chunks: shown in bytes, and with no chunk planned yet.
    pub fn new(size: usize, chunk_count: usize) -> (data: Data)
        ensures
            data@ == (DataModel {
                size: size as nat,
                human_readable_size: size as nat,
                unit: Units::Byte,
                chunk_count: chunk_count as nat,
                chunks: Seq::<ChunkSpec>::empty(),
            }),
    {
        Data {
            size,
            human_readable_size: size,
            unit: Units::Byte,
            chunk_count,
            chunks: Vec::new(),
        }
    }

    /// Sets the unit the size is shown in.
    pub fn set_unit(&mut self, unit: Units)
        ensures
            final(self)@ == (DataModel { unit: unit, ..old(self)@ }),
    {
        self.unit = unit;
    }

    /// The unit the size is shown in.
    pub fn get_unit(&self) -> (unit: Units)
        ensures
            unit == self@.unit,
    {
        self.unit
    }

    /// The size in bytes.
    pub fn get_size(&self) -> (size: usize)
        ensures
            size == self@.size,
    {
        self.size
    }

    /// The magnitude the size is shown with.
    pub fn get_human_readable_size(&self) -> (size: usize)
        ensures
            size == self@.human_readable_size,
    {
        self.human_readable_size
    }

    /// Sets the magnitude the size is shown with.
    pub fn set_human_readable_size(&mut self, size: usize)
        ensures
            final(self)@ == (DataModel { human_readable_size: size as nat, ..old(self)@ }),
    {
        self.human_readable_size = size;
    }

    /// The number of chunks asked for.
    pub fn get_chunk_count(&self) -> (count: usize)
        ensures
            count == self@.chunk_count,
    {
        self.chunk_count
    }

    /// The chunks planned so far, in index order.
    pub fn get_chunks(&self) -> (chunks: &Vec<ChunkSpec>)
        ensures
            chunks@ == self@.chunks,
    {
        &self.chunks
    }

    /// Plans the chunks of the resource and keeps them. Fails, and changes
    /// nothing, exactly when the size or the number of chunks asked for is
    /// zero. Otherwise the chunks split the resource exactly, with no more
    /// chunks than bytes.
    pub fn chunk_data(&mut self) -> (result: Result<(), PlanError>)
        ensures
            result is Err <==> old(self)@.size == 0 || old(self)@.chunk_count == 0,
            result matches Err(e) ==> e == PlanError::InvalidPlan && final(self)@ == old(self)@,
            result is Ok ==> {
                &&& final(self)@ == (DataModel {
                    chunks: planned(old(self)@.size, old(self)@.chunk_count),
                    ..old(self)@
                })
                &&& is_partition(final(self)@.chunks, final(self)@.size)
            },
    {
        match plan(self.size, self.chunk_count) {
            Ok(chunks) => {
                self.chunks = chunks;
                Ok(())
            },
            Err(e) => Err(e),
        }
    }
}

} // verus!
