use actions_models::common::{
    decode_boe, decode_env, decode_env_value, decode_explicit_permissions, decode_permissions,
    decode_sov_text, encode_boe, encode_env, encode_permissions, encode_sov_text, BasePermission,
    EnvValue, ExplicitPermissions, LoE, Permission, Permissions, SoV,
};
use actions_models::error::{ErrorKind, PathSeg};
use actions_models::shape::{resolve_first, Shape};
use actions_models::record::UnknownFieldPolicy;
use actions_models::value::{Node, NodeKind};

fn text(s: &str) -> Node {
    Node::new(NodeKind::Text(s.to_string()))
}

fn mapping(entries: Vec<(&str, Node)>) -> Node {
    Node::new(NodeKind::Mapping(entries.into_iter().map(|(k, v)| (k.to_string(), v)).collect()))
}

#[test]
fn test_permissions() {
    assert_eq!(
        decode_permissions(&text("read-all"), UnknownFieldPolicy::Strict).unwrap(),
        Permissions::Base(BasePermission::ReadAll)
    );

    let perm = mapping(vec![("security-events", text("write"))]);
    assert!(matches!(decode_explicit_permissions(&perm, UnknownFieldPolicy::Strict), Ok(_)));
}

#[test]
fn explicit_permissions_default_scopes() {
    let perm = mapping(vec![("security-events", text("write"))]);
    let decoded = decode_explicit_permissions(&perm, UnknownFieldPolicy::Strict).unwrap();
    let expected = ExplicitPermissions {
        actions: Permission::NoAccess,
        checks: Permission::NoAccess,
        contents: Permission::NoAccess,
        deployments: Permission::NoAccess,
        id_token: Permission::NoAccess,
        issues: Permission::NoAccess,
        discussions: Permission::NoAccess,
        packages: Permission::NoAccess,
        pages: Permission::NoAccess,
        pull_requests: Permission::NoAccess,
        repository_projects: Permission::NoAccess,
        security_events: Permission::Write,
        statuses: Permission::NoAccess,
    };
    assert_eq!(decoded, expected);
}

#[test]
fn permissions_default_is_base_default() {
    assert_eq!(Permissions::default(), Permissions::Base(BasePermission::Default));
}

#[test]
fn default_policy_is_strict() {
    assert_eq!(UnknownFieldPolicy::default(), UnknownFieldPolicy::Strict);
}

#[test]
fn unknown_scope_strict_vs_lenient() {
    let perm = mapping(vec![("unrelated-key", text("write"))]);
    let err = decode_explicit_permissions(&perm, UnknownFieldPolicy::Strict).unwrap_err();
    match err.kind {
        ErrorKind::UnknownField { key } => assert_eq!(key, "unrelated-key"),
        other => panic!("expected UnknownField, got {:?}", other),
    }
    assert!(decode_explicit_permissions(&perm, UnknownFieldPolicy::Lenient).is_ok());
}

#[test]
fn unknown_permission_keyword() {
    let perm = mapping(vec![("contents", text("admin"))]);
    let err = decode_explicit_permissions(&perm, UnknownFieldPolicy::Strict).unwrap_err();
    assert_eq!(err.path, vec![PathSeg::Key("contents".to_string())]);
    match err.kind {
        ErrorKind::UnknownVariant { found, legal } => {
            assert_eq!(found, "admin");
            assert_eq!(legal, vec!["read".to_string(), "write".to_string(), "none".to_string()]);
        },
        other => panic!("expected UnknownVariant, got {:?}", other),
    }
}

#[test]
fn permission_keywords_fold() {
    let perm = mapping(vec![("contents", text("WRITE"))]);
    let decoded = decode_explicit_permissions(&perm, UnknownFieldPolicy::Strict).unwrap();
    assert_eq!(decoded.contents, Permission::Write);
    assert_eq!(
        decode_permissions(&text("Read-All"), UnknownFieldPolicy::Strict).unwrap(),
        Permissions::Base(BasePermission::ReadAll)
    );
    assert_eq!(
        decode_permissions(&text("read_all"), UnknownFieldPolicy::Strict).unwrap(),
        Permissions::Base(BasePermission::ReadAll)
    );
}

#[test]
fn permissions_no_matching_shape() {
    let n = Node::new(NodeKind::Sequence(vec![text("read-all")]));
    let err = decode_permissions(&n, UnknownFieldPolicy::Strict).unwrap_err();
    assert!(matches!(err.kind, ErrorKind::NoMatchingShape { .. }));
}

#[test]
fn permissions_roundtrip() {
    let base = Permissions::Base(BasePermission::WriteAll);
    let encoded = encode_permissions(&base);
    assert_eq!(decode_permissions(&encoded, UnknownFieldPolicy::Strict).unwrap(), base);

    let explicit = Permissions::Explicit(ExplicitPermissions {
        actions: Permission::Read,
        checks: Permission::NoAccess,
        contents: Permission::Write,
        deployments: Permission::NoAccess,
        id_token: Permission::NoAccess,
        issues: Permission::Read,
        discussions: Permission::NoAccess,
        packages: Permission::NoAccess,
        pages: Permission::NoAccess,
        pull_requests: Permission::Write,
        repository_projects: Permission::NoAccess,
        security_events: Permission::Write,
        statuses: Permission::Read,
    });
    let encoded = encode_permissions(&explicit);
    assert_eq!(decode_permissions(&encoded, UnknownFieldPolicy::Strict).unwrap(), explicit);
}

#[test]
fn env_values_stringify() {
    let env_node = mapping(vec![
        ("FOO", Node::new(NodeKind::Number("1".to_string()))),
        ("BAR", Node::new(NodeKind::Bool(true))),
    ]);
    let env = decode_env(&env_node).unwrap();
    assert_eq!(env.len(), 2);
    assert_eq!(env[0].0, "FOO");
    assert_eq!(env[0].1.to_string(), "1");
    assert_eq!(env[1].0, "BAR");
    assert_eq!(env[1].1.to_string(), "true");
}

#[test]
fn env_value_kinds() {
    let v = decode_env_value(&text("hello")).unwrap();
    assert_eq!(v, EnvValue::Text("hello".to_string()));
    assert_eq!(v.to_string(), "hello");
    assert_eq!(EnvValue::Boolean(false).to_string(), "false");
    assert_eq!(EnvValue::Number("2.5".to_string()).to_string(), "2.5");

    let seq_node = Node::new(NodeKind::Sequence(vec![text("x")]));
    let err = decode_env_value(&seq_node).unwrap_err();
    assert!(matches!(err.kind, ErrorKind::NoMatchingShape { .. }));
}

#[test]
fn env_roundtrip() {
    let env = vec![
        ("A".to_string(), EnvValue::Text("x".to_string())),
        ("B".to_string(), EnvValue::Number("7".to_string())),
        ("C".to_string(), EnvValue::Boolean(true)),
    ];
    let encoded = encode_env(&env);
    assert_eq!(decode_env(&encoded).unwrap(), env);
}

#[test]
fn boe_literal_and_expression() {
    let lit = decode_boe(&Node::new(NodeKind::Bool(true))).unwrap();
    assert_eq!(lit, LoE::Literal(true));

    let expr = decode_boe(&text("${{ always() }}")).unwrap();
    assert_eq!(expr, LoE::Expr("${{ always() }}".to_string()));

    let plain = decode_boe(&text("yes"));
    assert!(matches!(plain.unwrap_err().kind, ErrorKind::NoMatchingShape { .. }));

    assert_eq!(<LoE<bool> as Default>::default(), LoE::Literal(false));
}

#[test]
fn boe_roundtrip() {
    let lit: LoE<bool> = LoE::Literal(true);
    assert_eq!(decode_boe(&encode_boe(&lit)).unwrap(), lit);
    let expr: LoE<bool> = LoE::Expr("${{ inputs.flag }}".to_string());
    assert_eq!(decode_boe(&encode_boe(&expr)).unwrap(), expr);
}

#[test]
fn sov_singular_preserved() {
    let one = decode_sov_text(&text("ubuntu")).unwrap();
    assert_eq!(one, SoV::One("ubuntu".to_string()));

    let many = decode_sov_text(&Node::new(NodeKind::Sequence(vec![text("ubuntu")]))).unwrap();
    assert_eq!(many, SoV::Many(vec!["ubuntu".to_string()]));

    assert_ne!(one, many);
    assert_eq!(one.expand(), many.expand());
    assert_eq!(one.expand(), vec!["ubuntu".to_string()]);
}

#[test]
fn sov_bad_element() {
    let n = Node::new(NodeKind::Sequence(vec![text("a"), Node::new(NodeKind::Bool(true))]));
    let err = decode_sov_text(&n).unwrap_err();
    assert_eq!(err.path, vec![PathSeg::Index(1)]);
    assert!(matches!(err.kind, ErrorKind::TypeMismatch { .. }));
}

#[test]
fn sov_from_impls() {
    let one: SoV<u32> = 5u32.into();
    assert_eq!(one, SoV::One(5));
    let many: SoV<u32> = vec![1u32, 2].into();
    assert_eq!(many, SoV::Many(vec![1, 2]));
}

#[test]
fn sov_roundtrip() {
    let one = SoV::One("macos".to_string());
    assert_eq!(decode_sov_text(&encode_sov_text(&one)).unwrap(), one);
    let many = SoV::Many(vec!["a".to_string(), "b".to_string()]);
    assert_eq!(decode_sov_text(&encode_sov_text(&many)).unwrap(), many);
}

#[test]
fn union_precedence_first_match_wins() {
    // Both candidates accept an expression-shaped text scalar; the
    // earlier-declared one must win.
    let node = text("${{ github.ref }}");
    let candidates = vec![Shape::TextScalar, Shape::ExprText];
    assert_eq!(resolve_first(&candidates, &node), Some(0));
    let flipped = vec![Shape::ExprText, Shape::TextScalar];
    assert_eq!(resolve_first(&flipped, &node), Some(0));

    // Both candidates accept a mapping that binds the key.
    let m = mapping(vec![("uses", text("x"))]);
    let candidates = vec![Shape::MappingWithKey("uses".to_string()), Shape::MappingShape];
    assert_eq!(resolve_first(&candidates, &m), Some(0));
    let candidates = vec![Shape::MappingShape, Shape::MappingWithKey("uses".to_string())];
    assert_eq!(resolve_first(&candidates, &m), Some(0));

    // No candidate accepts the node.
    let b = Node::new(NodeKind::Bool(true));
    assert_eq!(resolve_first(&candidates, &b), None);
}

#[test]
fn typed_accessors() {
    let b = Node::new(NodeKind::Bool(true));
    assert_eq!(b.as_bool().unwrap(), true);
    assert!(matches!(b.as_text().unwrap_err().kind, ErrorKind::TypeMismatch { .. }));

    let t = text("hi");
    assert_eq!(t.as_text().unwrap(), "hi");
    assert!(matches!(t.as_bool().unwrap_err().kind, ErrorKind::TypeMismatch { .. }));

    let n = Node::new(NodeKind::Number("3".to_string()));
    assert_eq!(n.as_number_text().unwrap(), "3");
    assert!(matches!(n.as_number_text(), Ok(_)));
    assert!(matches!(t.as_number_text().unwrap_err().kind, ErrorKind::TypeMismatch { .. }));
}

#[test]
fn explicit_permissions_shape_mismatch() {
    let err = decode_explicit_permissions(&text("read"), UnknownFieldPolicy::Strict).unwrap_err();
    assert!(matches!(err.kind, ErrorKind::ShapeMismatch { .. }));
}
