//! Optical volumes: collections of optical surfaces combined by an operation on their signed
//! distance fields.
//!
//! The surfaces, the refractive index and the placement of a volume are carried as values of
//! type parameters.
use vstd::prelude::*;

verus! {

/// How the signed distance fields of the surfaces of a volume are combined.
#[derive(Debug, Clone, Copy, PartialEq, Eq, Structural)]
pub enum SDFOperation {
    /// The union of the surfaces.
    Union,
    /// The intersection of the surfaces.
    Intersection,
    /// The surface of the given index minus the others.
    Subtraction { idx: usize },
}

/// An optical volume: surfaces of type `S` combined by an operation, with a refractive index of
/// type `N` and a placement of type `I`.
#[derive(Debug, Clone)]
pub struct OpticalVolume<S, N, I> {
    surf_objs: Vec<S>,
    sdf_op: SDFOperation,
    refractive_index: N,
    isometry: I,
}

/// An optical component: a volume and its placement.
#[derive(Debug, Clone)]
pub struct OpticComponent<S, N, I> {
    /// The volume.
    pub volume: OpticalVolume<S, N, I>,
    /// The placement of the component.
    pub isometry: I,
}

impl<S, N, I> OpticalVolume<S, N, I> {
    /// The surfaces of the volume.
    pub closed spec fn surfaces(self) -> Seq<S> {
        self.surf_objs@
    }

    /// The combining operation.
    pub closed spec fn spec_sdf_op(self) -> SDFOperation {
        self.sdf_op
    }

    /// The refractive index.
    pub closed spec fn spec_refractive_index(self) -> N {
        self.refractive_index
    }

    /// The placement.
    pub closed spec fn spec_isometry(self) -> I {
        self.isometry
    }

    /// Well-formedness: a volume has at least one surface.
    pub open spec fn wf(self) -> bool {
        self.surfaces().len() > 0
    }

    /// Creates a volume from a non-empty list of surfaces, combined by the given operation
    /// (by default their union). Returns `None` for an empty list.
    pub fn new(surf_objs: Vec<S>, sdf_op_opt: Option<SDFOperation>, refractive_index: N, isometry: I)
        -> (r: Option<Self>)
        ensures
            r is None <==> surf_objs@.len() == 0,
            r matches Some(v) ==> {
                &&& v.wf()
                &&& v.surfaces() == surf_objs@
                &&& v.spec_sdf_op() == match sdf_op_opt {
                    Some(op) => op,
                    None => SDFOperation::Union,
                }
                &&& v.spec_refractive_index() == refractive_index
                &&& v.spec_isometry() == isometry
            },
    {
        if surf_objs.len() == 0 {
            None
        } else {
            let sdf_op = match sdf_op_opt {
                Some(op) => op,
                None => SDFOperation::Union,
            };
            Some(OpticalVolume { surf_objs, sdf_op, refractive_index, isometry })
        }
    }

    /// Adds a surface to the volume.
    pub fn add_surf_obj(&mut self, surf_obj: S)
        ensures
            old(self).wf() ==> final(self).wf(),
            final(self).surfaces() == old(self).surfaces().push(surf_obj),
            final(self).spec_sdf_op() == old(self).spec_sdf_op(),
            final(self).spec_refractive_index() == old(self).spec_refractive_index(),
            final(self).spec_isometry() == old(self).spec_isometry(),
    {
        self.surf_objs.push(surf_obj);
    }

    /// The surfaces of the volume.
    pub fn surf_objs(&self) -> (v: &Vec<S>)
        ensures
            v@ == self.surfaces(),
    {
        &self.surf_objs
    }

    /// The combining operation.
    pub fn sdf_op(&self) -> (op: SDFOperation)
        ensures
            op == self.spec_sdf_op(),
    {
        self.sdf_op
    }

    /// The placement.
    pub fn isometry(&self) -> (i: &I)
        ensures
            *i == self.spec_isometry(),
    {
        &self.isometry
    }

    /// Replaces the placement.
    pub fn set_isometry(&mut self, isometry: I)
        ensures
            final(self).spec_isometry() == isometry,
            final(self).surfaces() == old(self).surfaces(),
            final(self).spec_sdf_op() == old(self).spec_sdf_op(),
            final(self).spec_refractive_index() == old(self).spec_refractive_index(),
    {
        self.isometry = isometry;
    }

    /// The operands of the combining operation: the index of the surface whose distance field
    /// the others are combined with, and the indices of the others in order. A union or an
    /// intersection starts from the first surface; a subtraction from the surface of its
    /// index, with all others subtracted from it. A volume of one surface has only that
    /// surface, whatever the operation.
    pub fn sdf_operands(&self) -> (r: (usize, Vec<usize>))
        requires
            self.wf(),
            self.surfaces().len() > 1 ==> (self.spec_sdf_op() matches SDFOperation::Subtraction { idx }
                ==> idx < self.surfaces().len()),
        ensures
            r.0 == operand_order(self.surfaces().len(), self.spec_sdf_op()).0,
            r.1@.map_values(|i: usize| i as int) == operand_order(self.surfaces().len(), self.spec_sdf_op()).1,
    {
        let n = self.surf_objs.len();
        let first: usize = if n == 1 {
            0
        } else {
            match self.sdf_op {
                SDFOperation::Subtraction { idx } => idx,
                _ => 0,
            }
        };
        let ghost expected = operand_order(n as nat, self.sdf_op).1;
        let mut others: Vec<usize> = Vec::new();
        let mut i: usize = 0;
        while i < n
            invariant
                n == self.surfaces().len(),
                first < n,
                i <= n,
                expected == operand_order(n as nat, self.sdf_op).1,
                first == operand_order(n as nat, self.sdf_op).0,
                others@.len() == if i <= first { i as int } else { i - 1 },
                forall|j: int| 0 <= j < others@.len() ==> others@[j] as int == #[trigger] expected[j],
            decreases n - i,
        {
            if i != first {
                others.push(i);
            }
            i = i + 1;
        }
        assert(others@.map_values(|i: usize| i as int) =~= expected);
        (first, others)
    }
}

/// The operands of the operation `op` on `n` surfaces (see [`OpticalVolume::sdf_operands`]).
pub open spec fn operand_order(n: nat, op: SDFOperation) -> (int, Seq<int>) {
    let first = if n <= 1 {
        0
    } else {
        match op {
            SDFOperation::Subtraction { idx } => idx as int,
            _ => 0,
        }
    };
    (first, Seq::new((n - 1) as nat, |j: int| if j < first { j } else { j + 1 }))
}

} // verus!
