//! The service interface definition: the plain data the compiler runs on.
//!
//! A service is an ordered list of method definitions. Order is
//! semantically significant: it is the source of the wire ordinals. Type
//! descriptors are opaque; the compiler copies them verbatim into generated
//! record fields and never inspects them.

use vstd::prelude::*;

verus! {

/// A parameter of a method: a name and an opaque type descriptor.
pub struct Parameter {
    pub name: String,
    pub ty: String,
}

/// Mathematical image of a [`Parameter`]: both strings as character
/// sequences. Generated record fields have the same shape, so this model
/// also stands for one field of a record.
pub struct ParamModel {
    pub name: Seq<char>,
    pub ty: Seq<char>,
}

impl View for Parameter {
    type V = ParamModel;

    open spec fn view(&self) -> ParamModel {
        ParamModel { name: self.name@, ty: self.ty@ }
    }
}

/// One method of a service: a name, an ordered parameter list, and an
/// optional return type. A leading parameter named `self` is the receiver;
/// it is excluded from the generated input record.
pub struct MethodDef {
    pub name: String,
    pub params: Vec<Parameter>,
    pub return_type: Option<String>,
}

/// Mathematical image of a [`MethodDef`].
pub struct MethodModel {
    pub name: Seq<char>,
    pub params: Seq<ParamModel>,
    pub return_type: Option<Seq<char>>,
}

impl View for MethodDef {
    type V = MethodModel;

    open spec fn view(&self) -> MethodModel {
        MethodModel {
            name: self.name@,
            params: self.params@.map_values(|p: Parameter| p@),
            return_type: match self.return_type {
                Some(t) => Some(t@),
                None => None,
            },
        }
    }
}

/// A service interface definition: the named service type and its methods,
/// in declaration order.
pub struct ServiceDef {
    pub name: String,
    pub methods: Vec<MethodDef>,
}

/// Mathematical image of a [`ServiceDef`].
pub struct ServiceModel {
    pub name: Seq<char>,
    pub methods: Seq<MethodModel>,
}

impl View for ServiceDef {
    type V = ServiceModel;

    open spec fn view(&self) -> ServiceModel {
        ServiceModel { name: self.name@, methods: self.methods@.map_values(|m: MethodDef| m@) }
    }
}

/// Copies a parameter. Spelled out field by field so that the copy is known
/// to carry the same name and type descriptor.
pub fn clone_param(p: &Parameter) -> (r: Parameter)
    ensures
        r@ == p@,
{
    Parameter { name: p.name.clone(), ty: p.ty.clone() }
}

} // verus!
