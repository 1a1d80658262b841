//! Value shapes of the build system that embeds the checker: the run-action
//! knobs, attribute descriptors, transitive-set definitions and provider
//! info records its rules pass around. The checker's host keeps these as
//! plain data; runtime handles (artifacts, provider collections, coerced
//! values) appear as opaque identifiers.

use vstd::prelude::*;

use crate::ty::new_string;

verus! {

/// Knobs controlling how a run action works.
#[derive(Clone, Copy, Debug, PartialEq, Eq, Structural)]
pub struct RunActionKnobs {
    /// Process dependency files as they are generated.
    pub eager_dep_files: bool,
    /// Hash all commands the way dependency files are hashed, to skip
    /// re-executing commands whose inputs and outputs did not change.
    pub hash_all_commands: bool,
    /// Read network action outputs from the offline cache.
    pub use_network_action_output_cache: bool,
    /// Enforce timeouts for remotely executed commands.
    pub enforce_re_timeouts: bool,
}

/// A computation state that carries [`RunActionKnobs`].
pub trait HasRunActionKnobs {
    /// Attach the knobs.
    fn set_run_action_knobs(&mut self, knobs: RunActionKnobs);

    /// Read the knobs back.
    fn get_run_action_knobs(&self) -> RunActionKnobs;
}

/// An opaque handle to a frozen attribute value.
#[derive(Clone, Copy, Debug, PartialEq, Eq, Structural)]
pub struct CoercedValueId {
    /// The handle.
    pub id: u64,
}

/// An opaque handle to an attribute coercer.
#[derive(Clone, Copy, Debug, PartialEq, Eq, Structural)]
pub struct AttrCoercerId {
    /// The handle.
    pub id: u64,
}

/// One declared rule attribute: its coercer, its default, and whether it
/// may only ever supply its default.
#[derive(Clone, Copy, Debug, PartialEq, Eq, Structural)]
pub struct Attribute {
    /// The coercer turning user input into the attribute's value.
    pub coercer: AttrCoercerId,
    /// The default value, where one was declared.
    pub default: Option<CoercedValueId>,
    /// Whether the attribute is default-only.
    pub default_only: bool,
}

/// Why an attribute could not be used where it stood.
#[derive(Clone, Copy, Debug, PartialEq, Eq, Structural)]
pub enum AttrError {
    /// `attrs.default_only()` cannot be used in nested attributes.
    DefaultOnlyInNested,
}

/// An attribute descriptor as the configuration language sees it.
pub struct AttributeAsStarlarkValue {
    /// The described attribute.
    pub attribute: Attribute,
}

impl AttributeAsStarlarkValue {
    /// Wrap an attribute.
    pub fn new(attr: Attribute) -> (r: AttributeAsStarlarkValue)
        ensures
            r.attribute == attr,
    {
        AttributeAsStarlarkValue { attribute: attr }
    }

    /// The described attribute.
    pub fn clone_attribute(&self) -> (r: Attribute)
        ensures
            r == self.attribute,
    {
        self.attribute
    }

    /// The coercer to put into a higher-level coercer (e.g. a list of this
    /// attribute); a default-only attribute cannot nest.
    pub fn coercer_for_inner(&self) -> (r: Result<AttrCoercerId, AttrError>)
        ensures
            match r {
                Result::Ok(c) => !self.attribute.default_only && c == self.attribute.coercer,
                Result::Err(e) => self.attribute.default_only && e
                    == AttrError::DefaultOnlyInNested,
            },
    {
        if self.attribute.default_only {
            Result::Err(AttrError::DefaultOnlyInNested)
        } else {
            Result::Ok(self.attribute.coercer)
        }
    }

    /// The coercer for a default-only use, always available.
    pub fn coercer_for_default_only(&self) -> (r: AttrCoercerId)
        ensures
            r == self.attribute.coercer,
    {
        self.attribute.coercer
    }

    /// The declared default value, where one exists.
    pub fn default(&self) -> (r: &Option<CoercedValueId>)
        ensures
            r == &self.attribute.default,
    {
        &self.attribute.default
    }
}

/// The two ways a transitive set's contents can be projected.
#[derive(Clone, Copy, Debug, PartialEq, Eq, Structural)]
pub enum TransitiveSetProjectionKind {
    /// As command-line arguments.
    Args,
    /// As a JSON value.
    Json,
}

impl TransitiveSetProjectionKind {
    /// The short name of the projection kind.
    pub fn short_name(&self) -> (r: &'static str)
        ensures
            match self {
                TransitiveSetProjectionKind::Args => r@ == "args"@,
                TransitiveSetProjectionKind::Json => r@ == "json"@,
            },
    {
        match self {
            TransitiveSetProjectionKind::Args => "args",
            TransitiveSetProjectionKind::Json => "json",
        }
    }

    /// The name of the function performing the projection.
    pub fn function_name(&self) -> (r: &'static str)
        ensures
            match self {
                TransitiveSetProjectionKind::Args => r@ == "project_as_args"@,
                TransitiveSetProjectionKind::Json => r@ == "project_as_json"@,
            },
    {
        match self {
            TransitiveSetProjectionKind::Args => "project_as_args",
            TransitiveSetProjectionKind::Json => "project_as_json",
        }
    }
}

/// One projection a transitive-set definition offers: its kind and the
/// callable performing it.
pub struct TransitiveSetProjectionSpec<V> {
    /// How the projection presents the contents.
    pub kind: TransitiveSetProjectionKind,
    /// The callable performing the projection.
    pub projection: V,
}

/// The operations of a transitive-set definition: named projections and
/// named reductions, each name unique, in declaration order.
pub struct TransitiveSetOperationsGen<V> {
    /// The projections, by name.
    pub projections: Vec<(String, TransitiveSetProjectionSpec<V>)>,
    /// The reductions, by name.
    pub reductions: Vec<(String, V)>,
}

/// Why a projection lookup failed.
#[derive(Debug, PartialEq)]
pub enum ProjectionError {
    /// No projection with the requested name exists; the valid names of the
    /// requested kind are listed.
    ProjectionDoesNotExist {
        /// The requested name.
        projection: String,
        /// The names that would have been valid.
        valid_projections: Vec<String>,
    },
    /// The projection exists but has the other kind.
    ProjectionKindMismatch {
        /// The requested name.
        projection: String,
        /// The kind that was asked for.
        expected_kind: TransitiveSetProjectionKind,
        /// The kind the projection has.
        actual_kind: TransitiveSetProjectionKind,
    },
}

/// The names of the projections of the given kind from `i` on, in
/// declaration order, appended to `acc`.
pub open spec fn projection_names_v<V>(
    rows: Seq<(String, TransitiveSetProjectionSpec<V>)>,
    kind: TransitiveSetProjectionKind,
    i: int,
    acc: Seq<Seq<char>>,
) -> Seq<Seq<char>>
    decreases rows.len() - i,
{
    if i < 0 || i >= rows.len() {
        acc
    } else if rows[i].1.kind == kind {
        projection_names_v(rows, kind, i + 1, acc.push(rows[i].0@))
    } else {
        projection_names_v(rows, kind, i + 1, acc)
    }
}

/// The views of a list of names.
pub open spec fn names_v(rows: Seq<String>) -> Seq<Seq<char>> {
    Seq::new(rows.len(), |j: int| rows[j]@)
}

/// The position of the first projection entry named `name`, if any.
pub open spec fn projection_index_v<V>(
    rows: Seq<(String, TransitiveSetProjectionSpec<V>)>,
    i: int,
    name: Seq<char>,
) -> Option<int>
    decreases rows.len() - i,
{
    if i < 0 || i >= rows.len() {
        Option::None
    } else if rows[i].0@ == name {
        Option::Some(i)
    } else {
        projection_index_v(rows, i + 1, name)
    }
}

impl<V> TransitiveSetOperationsGen<V> {
    /// Exactly the names of the projections of the given kind, in
    /// declaration order.
    pub fn valid_projections(&self, kind: TransitiveSetProjectionKind) -> (r: Vec<String>)
        ensures
            names_v(r@) == projection_names_v(self.projections@, kind, 0, Seq::empty()),
    {
        let mut out: Vec<String> = Vec::new();
        let n = self.projections.len();
        proof {
            assert(names_v(out@) =~= Seq::<Seq<char>>::empty());
        }
        for i in 0..n
            invariant
                n == self.projections@.len(),
                projection_names_v(self.projections@, kind, i as int, names_v(out@))
                    == projection_names_v(self.projections@, kind, 0, Seq::empty()),
        {
            let ghost before = names_v(out@);
            if self.projections[i].1.kind == kind {
                let name = self.projections[i].0.clone();
                out.push(name);
                proof {
                    assert(names_v(out@) =~= before.push(
                        self.projections@[i as int].0@,
                    ));
                }
            }
        }
        out
    }

    /// The position of the projection named `proj`, required to have the
    /// given kind: the position exactly when the name exists with that
    /// kind; a kind mismatch names both kinds; a missing name lists the
    /// valid projections (of the command-line kind, as callers print them).
    pub fn get_index_of_projection(
        &self,
        kind: TransitiveSetProjectionKind,
        proj: &String,
    ) -> (r: Result<usize, ProjectionError>)
        ensures
            match r {
                Result::Ok(i) => projection_index_v(self.projections@, 0, proj@) == Option::Some(
                    i as int,
                ) && i < self.projections@.len() && self.projections@[i as int].1.kind == kind,
                Result::Err(e) => match e {
                    ProjectionError::ProjectionKindMismatch {
                        projection,
                        expected_kind,
                        actual_kind,
                    } => {
                        &&& projection@ == proj@
                        &&& expected_kind == kind
                        &&& (match projection_index_v(self.projections@, 0, proj@) {
                            Option::Some(i) => self.projections@[i].1.kind == actual_kind
                                && actual_kind != kind,
                            Option::None => false,
                        })
                    },
                    ProjectionError::ProjectionDoesNotExist { projection, valid_projections } => {
                        &&& projection@ == proj@
                        &&& projection_index_v(self.projections@, 0, proj@) is None
                        &&& names_v(valid_projections@) == projection_names_v(
                            self.projections@,
                            TransitiveSetProjectionKind::Args,
                            0,
                            Seq::empty(),
                        )
                    },
                },
            },
    {
        let n = self.projections.len();
        for i in 0..n
            invariant
                n == self.projections@.len(),
                projection_index_v(self.projections@, i as int, proj@) == projection_index_v(
                    self.projections@,
                    0,
                    proj@,
                ),
        {
            if self.projections[i].0 == *proj {
                if self.projections[i].1.kind == kind {
                    return Result::Ok(i);
                }
                let actual = self.projections[i].1.kind;
                return Result::Err(
                    ProjectionError::ProjectionKindMismatch {
                        projection: proj.clone(),
                        expected_kind: kind,
                        actual_kind: actual,
                    },
                );
            }
        }
        let valid = self.valid_projections(TransitiveSetProjectionKind::Args);
        Result::Err(
            ProjectionError::ProjectionDoesNotExist {
                projection: proj.clone(),
                valid_projections: valid,
            },
        )
    }
}

/// An opaque handle to a provider collection.
#[derive(Clone, Copy, Debug, PartialEq, Eq, Structural)]
pub struct ProviderCollectionId {
    /// The handle.
    pub id: u64,
}

/// An opaque handle to a built artifact or artifact group.
#[derive(Clone, Copy, Debug, PartialEq, Eq, Structural)]
pub struct ArtifactId {
    /// The handle.
    pub id: u64,
}

/// The provider record every rule yields, generic over how values are held.
pub struct DefaultInfoGen<V> {
    /// Named sub-targets, each with its own provider collection.
    pub sub_targets: Vec<(String, V)>,
    /// The artifacts built when the rule is requested explicitly.
    pub default_outputs: Vec<V>,
    /// The artifacts built alongside, but not when depended on as a source.
    pub other_outputs: Vec<V>,
}

/// The frozen form of the record, holding plain handles.
pub struct FrozenDefaultInfo {
    /// Named sub-targets, each with its own provider collection.
    pub sub_targets: Vec<(String, ProviderCollectionId)>,
    /// The artifacts built when the rule is requested explicitly.
    pub default_outputs: Vec<ArtifactId>,
    /// The artifacts built alongside, but not when depended on as a source.
    pub other_outputs: Vec<ArtifactId>,
}

/// The position of the first sub-target named `name`, if any.
pub open spec fn sub_target_index_v(
    rows: Seq<(String, ProviderCollectionId)>,
    i: int,
    name: Seq<char>,
) -> Option<int>
    decreases rows.len() - i,
{
    if i < 0 || i >= rows.len() {
        Option::None
    } else if rows[i].0@ == name {
        Option::Some(i)
    } else {
        sub_target_index_v(rows, i + 1, name)
    }
}

impl FrozenDefaultInfo {
    /// The provider collection of the sub-target named `name`, if any.
    pub fn get_sub_target_providers(&self, name: &String) -> (r: Option<ProviderCollectionId>)
        ensures
            match r {
                Option::Some(p) => match sub_target_index_v(self.sub_targets@, 0, name@) {
                    Option::Some(i) => self.sub_targets@[i].1 == p,
                    Option::None => false,
                },
                Option::None => sub_target_index_v(self.sub_targets@, 0, name@) is None,
            },
    {
        let n = self.sub_targets.len();
        for i in 0..n
            invariant
                n == self.sub_targets@.len(),
                sub_target_index_v(self.sub_targets@, i as int, name@) == sub_target_index_v(
                    self.sub_targets@,
                    0,
                    name@,
                ),
        {
            if self.sub_targets[i].0 == *name {
                return Option::Some(self.sub_targets[i].1);
            }
        }
        Option::None
    }

    /// All the sub-targets, in declaration order.
    pub fn sub_targets(&self) -> (r: &Vec<(String, ProviderCollectionId)>)
        ensures
            r == &self.sub_targets,
    {
        &self.sub_targets
    }

    /// The sub-targets as stored, unconverted.
    pub fn sub_targets_raw(&self) -> (r: &Vec<(String, ProviderCollectionId)>)
        ensures
            r == &self.sub_targets,
    {
        &self.sub_targets
    }

    /// The default outputs as stored, unconverted.
    pub fn default_outputs_raw(&self) -> (r: &Vec<ArtifactId>)
        ensures
            r == &self.default_outputs,
    {
        &self.default_outputs
    }
}

} // verus!
