//! Tests for the build-system value shapes.

use starlark::build_api::Attribute;
use starlark::build_api::AttributeAsStarlarkValue;
use starlark::build_api::AttrCoercerId;
use starlark::build_api::AttrError;
use starlark::build_api::CoercedValueId;
use starlark::build_api::FrozenDefaultInfo;
use starlark::build_api::ProjectionError;
use starlark::build_api::ProviderCollectionId;
use starlark::build_api::TransitiveSetOperationsGen;
use starlark::build_api::TransitiveSetProjectionKind;
use starlark::build_api::TransitiveSetProjectionSpec;

fn ops() -> TransitiveSetOperationsGen<u64> {
    TransitiveSetOperationsGen {
        projections: vec![
            (
                "cmd".to_owned(),
                TransitiveSetProjectionSpec { kind: TransitiveSetProjectionKind::Args, projection: 1 },
            ),
            (
                "meta".to_owned(),
                TransitiveSetProjectionSpec { kind: TransitiveSetProjectionKind::Json, projection: 2 },
            ),
        ],
        reductions: vec![],
    }
}

#[test]
fn projection_kind_names() {
    assert_eq!(TransitiveSetProjectionKind::Args.short_name(), "args");
    assert_eq!(TransitiveSetProjectionKind::Json.short_name(), "json");
    assert_eq!(TransitiveSetProjectionKind::Args.function_name(), "project_as_args");
    assert_eq!(TransitiveSetProjectionKind::Json.function_name(), "project_as_json");
}

#[test]
fn projection_lookup_finds_kinds_and_positions() {
    let o = ops();
    assert_eq!(
        o.valid_projections(TransitiveSetProjectionKind::Args),
        vec!["cmd".to_owned()]
    );
    assert_eq!(
        o.valid_projections(TransitiveSetProjectionKind::Json),
        vec!["meta".to_owned()]
    );
    assert_eq!(
        o.get_index_of_projection(TransitiveSetProjectionKind::Args, &"cmd".to_owned()),
        Ok(0)
    );
    assert_eq!(
        o.get_index_of_projection(TransitiveSetProjectionKind::Json, &"meta".to_owned()),
        Ok(1)
    );
    match o.get_index_of_projection(TransitiveSetProjectionKind::Args, &"meta".to_owned()) {
        Err(ProjectionError::ProjectionKindMismatch { actual_kind, .. }) => {
            assert_eq!(actual_kind, TransitiveSetProjectionKind::Json);
        }
        other => panic!("expected a kind mismatch, got {:?}", other),
    }
    match o.get_index_of_projection(TransitiveSetProjectionKind::Args, &"nope".to_owned()) {
        Err(ProjectionError::ProjectionDoesNotExist { valid_projections, .. }) => {
            assert_eq!(valid_projections, vec!["cmd".to_owned()]);
        }
        other => panic!("expected a missing projection, got {:?}", other),
    }
}

#[test]
fn attribute_wrapping_and_nesting() {
    let plain = Attribute {
        coercer: AttrCoercerId { id: 3 },
        default: Some(CoercedValueId { id: 9 }),
        default_only: false,
    };
    let v = AttributeAsStarlarkValue::new(plain);
    assert_eq!(v.clone_attribute(), plain);
    assert_eq!(v.coercer_for_inner(), Ok(AttrCoercerId { id: 3 }));
    assert_eq!(v.coercer_for_default_only(), AttrCoercerId { id: 3 });
    assert_eq!(v.default(), &Some(CoercedValueId { id: 9 }));

    let only = Attribute { default_only: true, ..plain };
    let w = AttributeAsStarlarkValue::new(only);
    assert_eq!(w.coercer_for_inner(), Err(AttrError::DefaultOnlyInNested));
    assert_eq!(w.coercer_for_default_only(), AttrCoercerId { id: 3 });
}

#[test]
fn default_info_sub_target_lookup() {
    let info = FrozenDefaultInfo {
        sub_targets: vec![
            ("doc".to_owned(), ProviderCollectionId { id: 4 }),
            ("bin".to_owned(), ProviderCollectionId { id: 5 }),
        ],
        default_outputs: vec![],
        other_outputs: vec![],
    };
    assert_eq!(
        info.get_sub_target_providers(&"bin".to_owned()),
        Some(ProviderCollectionId { id: 5 })
    );
    assert_eq!(info.get_sub_target_providers(&"nope".to_owned()), None);
    assert_eq!(info.sub_targets().len(), 2);
    assert_eq!(info.sub_targets_raw().len(), 2);
    assert!(info.default_outputs_raw().is_empty());
}
