//! Layered error values: every failing encode or decode names the entity it
//! was working on, and each enclosing layer adds its own context without
//! discarding the inner cause.

use vstd::prelude::*;

verus! {

/// The entity being processed when a failure arose.
#[derive(Clone, Copy, Debug, PartialEq, Eq, Structural)]
pub enum EntityName {
    SurfaceMsg,
    SurfaceListReq,
    SurfaceListRsp,
    SurfaceMapReq,
    SurfaceMapRsp,
    SurfaceSelectReq,
    SurfaceSelectRsp,
    SurfaceDef,
    SurfaceMap,
    SurfaceMessageType,
    SurfaceOrientation,
}

/// The kind of failure at one layer of the chain.
#[derive(Clone, Copy, Debug, PartialEq, Eq, Structural)]
pub enum ProtoErrorKind {
    /// A value could not be turned into bytes.
    Encoding(EntityName),
    /// Bytes could not be turned back into a value.
    Decoding(EntityName),
    /// A discriminant code outside the declared set, with the offending value.
    InvalidDiscriminant(EntityName, u16),
}

/// One layer of context: what failed and a short human-readable cause.
#[derive(Clone, Copy, Debug)]
pub struct ErrorLayer {
    pub kind: ProtoErrorKind,
    pub desc: &'static str,
}

/// An ordered chain of failure contexts, innermost first: the first layer is
/// the byte-level or field-level cause, the last the outermost envelope.
#[derive(Clone, Debug)]
pub struct ProtoError {
    pub layers: Vec<ErrorLayer>,
}

impl ProtoError {
    /// The kind recorded at the innermost layer.
    pub open spec fn root_kind(self) -> ProtoErrorKind
        recommends self.layers@.len() > 0,
    {
        self.layers@[0].kind
    }

    /// A chain always carries at least one layer.
    pub open spec fn wf(self) -> bool {
        self.layers@.len() > 0
    }

    /// Start a chain from its innermost cause.
    pub fn new(kind: ProtoErrorKind, desc: &'static str) -> (r: Self)
        ensures
            r.layers@.len() == 1,
            r.layers@[0].kind == kind,
            r.wf(),
            r.root_kind() == kind,
    {
        let mut layers: Vec<ErrorLayer> = Vec::new();
        layers.push(ErrorLayer { kind, desc });
        ProtoError { layers }
    }

    /// Wrap the chain in one more layer of context, keeping every inner layer.
    pub fn chain(self, kind: ProtoErrorKind, desc: &'static str) -> (r: Self)
        ensures
            r.layers@.len() == self.layers@.len() + 1,
            forall|i: int| 0 <= i < self.layers@.len() ==> r.layers@[i].kind == self.layers@[i].kind,
            r.layers@[self.layers@.len() as int].kind == kind,
            self.wf() ==> r.root_kind() == self.root_kind(),
            r.wf(),
    {
        let mut layers = self.layers;
        layers.push(ErrorLayer { kind, desc });
        ProtoError { layers }
    }
}

} // verus!
