//! The shared model types: permissions, environment values, the
//! literal-or-expression union and the scalar-or-vector union.

use vstd::prelude::*;

use crate::error::{res_view, spec_err, DecodeError, ErrorKind, SpecErr, SpecErrKind};
use crate::keyword::{
    fold_matches, keyword_folds_to, opt_node_view, resolve_enum, spec_resolve_enum,
    spec_table_lookup, table_view,
};
use crate::record::{
    check_keys, key_allowed, spec_check_keys, spec_first_unknown, UnknownFieldPolicy,
};
use crate::shape::{spec_is_expr, spec_resolve, Shape, SpecShape};
use crate::value::{lookup, spec_lookup, KindName, Node, NodeKind};

verus! {

/// A permission level for one scope.
#[derive(Debug, Clone, Copy, PartialEq, Eq, Structural)]
pub enum Permission {
    Read,
    Write,
    NoAccess,
}

/// A workflow-wide base permission keyword.
#[derive(Debug, Clone, Copy, PartialEq, Eq, Structural)]
pub enum BasePermission {
    /// Whatever permissions the runner's ambient token carries.
    Default,
    ReadAll,
    WriteAll,
}

/// One permission level per named scope.  Every scope defaults
/// independently to `Permission::NoAccess` when its key is absent.
#[derive(Debug, Clone, Copy, PartialEq, Eq, Structural)]
pub struct ExplicitPermissions {
    pub actions: Permission,
    pub checks: Permission,
    pub contents: Permission,
    pub deployments: Permission,
    pub id_token: Permission,
    pub issues: Permission,
    pub discussions: Permission,
    pub packages: Permission,
    pub pages: Permission,
    pub pull_requests: Permission,
    pub repository_projects: Permission,
    pub security_events: Permission,
    pub statuses: Permission,
}

/// Either a single base keyword applied uniformly, or an explicit
/// per-scope record.
#[derive(Debug, Clone, Copy, PartialEq, Eq, Structural)]
pub enum Permissions {
    Base(BasePermission),
    Explicit(ExplicitPermissions),
}

impl Default for Permissions {
    /// A wholly absent permissions field means the base keyword
    /// `default`.
    fn default() -> (p: Self)
        ensures
            p == Permissions::Base(BasePermission::Default),
    {
        Permissions::Base(BasePermission::Default)
    }
}

/// The declared keyword table for a scope's permission level.
pub open spec fn spec_permission_table() -> Seq<(Seq<char>, Permission)> {
    seq![
        ("read"@, Permission::Read),
        ("write"@, Permission::Write),
        ("none"@, Permission::NoAccess),
    ]
}

/// Builds the scope permission table.
pub fn permission_table() -> (t: Vec<(String, Permission)>)
    ensures
        table_view(t@) == spec_permission_table(),
{
    let mut t: Vec<(String, Permission)> = Vec::new();
    t.push(("read".to_owned(), Permission::Read));
    t.push(("write".to_owned(), Permission::Write));
    t.push(("none".to_owned(), Permission::NoAccess));
    proof {
        assert(table_view(t@) =~= spec_permission_table());
    }
    t
}

/// The declared keyword table for the base permission.
pub open spec fn spec_base_permission_table() -> Seq<(Seq<char>, BasePermission)> {
    seq![
        ("default"@, BasePermission::Default),
        ("read-all"@, BasePermission::ReadAll),
        ("write-all"@, BasePermission::WriteAll),
    ]
}

/// Builds the base permission table.
pub fn base_permission_table() -> (t: Vec<(String, BasePermission)>)
    ensures
        table_view(t@) == spec_base_permission_table(),
{
    let mut t: Vec<(String, BasePermission)> = Vec::new();
    t.push(("default".to_owned(), BasePermission::Default));
    t.push(("read-all".to_owned(), BasePermission::ReadAll));
    t.push(("write-all".to_owned(), BasePermission::WriteAll));
    proof {
        assert(table_view(t@) =~= spec_base_permission_table());
    }
    t
}

/// The declared field names of the explicit permissions record, in
/// declared order.
pub open spec fn spec_scope_keys() -> Seq<Seq<char>> {
    seq![
        "actions"@,
        "checks"@,
        "contents"@,
        "deployments"@,
        "id-token"@,
        "issues"@,
        "discussions"@,
        "packages"@,
        "pages"@,
        "pull-requests"@,
        "repository-projects"@,
        "security-events"@,
        "statuses"@,
    ]
}

/// Builds the declared field-name list of the explicit permissions
/// record.
pub fn scope_keys() -> (v: Vec<String>)
    ensures
        v@.map_values(|s: String| s@) == spec_scope_keys(),
{
    let mut v: Vec<String> = Vec::new();
    v.push("actions".to_owned());
    v.push("checks".to_owned());
    v.push("contents".to_owned());
    v.push("deployments".to_owned());
    v.push("id-token".to_owned());
    v.push("issues".to_owned());
    v.push("discussions".to_owned());
    v.push("packages".to_owned());
    v.push("pages".to_owned());
    v.push("pull-requests".to_owned());
    v.push("repository-projects".to_owned());
    v.push("security-events".to_owned());
    v.push("statuses".to_owned());
    proof {
        assert(v@.map_values(|s: String| s@) =~= spec_scope_keys());
    }
    v
}

/// Resolving one scope of the explicit record: absent defaults to
/// `Permission::NoAccess`, a failure is reported under the scope's key.
pub open spec fn spec_scope(entries: Seq<(String, Node)>, key: Seq<char>) -> Result<
    Permission,
    SpecErr,
> {
    match spec_resolve_enum(
        spec_lookup(entries, key),
        spec_permission_table(),
        Permission::NoAccess,
    ) {
        Result::Ok(p) => Result::Ok(p),
        Result::Err(e) => Result::Err(crate::error::spec_under_key(key, e)),
    }
}

/// Decoding a mapping node as the explicit permissions record.
pub open spec fn spec_decode_explicit(n: Node, policy: UnknownFieldPolicy) -> Result<
    ExplicitPermissions,
    SpecErr,
> {
    match n.kind {
        NodeKind::Mapping(es) => {
            let entries = es@;
            match spec_check_keys(entries, spec_scope_keys(), policy, n.loc) {
                Result::Err(e) => Result::Err(e),
                Result::Ok(_) => match spec_scope(entries, "actions"@) {
                    Result::Err(e) => Result::Err(e),
                    Result::Ok(actions) => match spec_scope(entries, "checks"@) {
                        Result::Err(e) => Result::Err(e),
                        Result::Ok(checks) => match spec_scope(entries, "contents"@) {
                            Result::Err(e) => Result::Err(e),
                            Result::Ok(contents) => match spec_scope(entries, "deployments"@) {
                                Result::Err(e) => Result::Err(e),
                                Result::Ok(deployments) => match spec_scope(entries, "id-token"@) {
                                    Result::Err(e) => Result::Err(e),
                                    Result::Ok(id_token) => match spec_scope(entries, "issues"@) {
                                        Result::Err(e) => Result::Err(e),
                                        Result::Ok(issues) => match spec_scope(
                                            entries,
                                            "discussions"@,
                                        ) {
                                            Result::Err(e) => Result::Err(e),
                                            Result::Ok(discussions) => match spec_scope(
                                                entries,
                                                "packages"@,
                                            ) {
                                                Result::Err(e) => Result::Err(e),
                                                Result::Ok(packages) => match spec_scope(
                                                    entries,
                                                    "pages"@,
                                                ) {
                                                    Result::Err(e) => Result::Err(e),
                                                    Result::Ok(pages) => match spec_scope(
                                                        entries,
                                                        "pull-requests"@,
                                                    ) {
                                                        Result::Err(e) => Result::Err(e),
                                                        Result::Ok(pull_requests) => match spec_scope(
                                                            entries,
                                                            "repository-projects"@,
                                                        ) {
                                                            Result::Err(e) => Result::Err(e),
                                                            Result::Ok(repository_projects) => match spec_scope(
                                                                entries,
                                                                "security-events"@,
                                                            ) {
                                                                Result::Err(e) => Result::Err(e),
                                                                Result::Ok(security_events) => match spec_scope(
                                                                    entries,
                                                                    "statuses"@,
                                                                ) {
                                                                    Result::Err(e) => Result::Err(
                                                                        e,
                                                                    ),
                                                                    Result::Ok(statuses) => Result::Ok(
                                                                        ExplicitPermissions {
                                                                            actions,
                                                                            checks,
                                                                            contents,
                                                                            deployments,
                                                                            id_token,
                                                                            issues,
                                                                            discussions,
                                                                            packages,
                                                                            pages,
                                                                            pull_requests,
                                                                            repository_projects,
                                                                            security_events,
                                                                            statuses,
                                                                        },
                                                                    ),
                                                                },
                                                            },
                                                        },
                                                    },
                                                },
                                            },
                                        },
                                    },
                                },
                            },
                        },
                    },
                },
            }
        },
        _ => Result::Err(
            spec_err(
                SpecErrKind::ShapeMismatch {
                    expected: KindName::MappingKind,
                    found: n.spec_kind_name(),
                },
                n.loc,
            ),
        ),
    }
}

/// Resolves one scope field of the explicit record.
fn decode_scope(entries: &Vec<(String, Node)>, key: &str, table: &Vec<(String, Permission)>) -> (r:
    Result<Permission, DecodeError>)
    requires
        table_view(table@) == spec_permission_table(),
    ensures
        res_view(r) == spec_scope(entries@, key@),
{
    let n_opt = lookup(entries, key);
    proof {
        assert(opt_node_view(n_opt) == spec_lookup(entries@, key@));
    }
    match resolve_enum(n_opt, table, Permission::NoAccess) {
        Result::Ok(p) => Result::Ok(p),
        Result::Err(e) => Result::Err(e.under_key(key)),
    }
}

/// Decodes a mapping node as the explicit permissions record: each
/// declared scope defaults to `none` when absent; under the strict
/// policy an undeclared key is rejected.
pub fn decode_explicit_permissions(n: &Node, policy: UnknownFieldPolicy) -> (r: Result<
    ExplicitPermissions,
    DecodeError,
>)
    ensures
        res_view(r) == spec_decode_explicit(*n, policy),
{
    let entries = match &n.kind {
        NodeKind::Mapping(es) => es,
        _ => {
            return Result::Err(
                DecodeError::at(
                    ErrorKind::ShapeMismatch {
                        expected: KindName::MappingKind,
                        found: n.kind_name(),
                    },
                    n.loc,
                ),
            );
        },
    };
    let allowed = scope_keys();
    match check_keys(entries, &allowed, policy, n.loc) {
        Result::Ok(_) => {},
        Result::Err(e) => {
            return Result::Err(e);
        },
    }
    let table = permission_table();
    let actions = match decode_scope(entries, "actions", &table) {
        Result::Ok(p) => p,
        Result::Err(e) => {
            return Result::Err(e);
        },
    };
    let checks = match decode_scope(entries, "checks", &table) {
        Result::Ok(p) => p,
        Result::Err(e) => {
            return Result::Err(e);
        },
    };
    let contents = match decode_scope(entries, "contents", &table) {
        Result::Ok(p) => p,
        Result::Err(e) => {
            return Result::Err(e);
        },
    };
    let deployments = match decode_scope(entries, "deployments", &table) {
        Result::Ok(p) => p,
        Result::Err(e) => {
            return Result::Err(e);
        },
    };
    let id_token = match decode_scope(entries, "id-token", &table) {
        Result::Ok(p) => p,
        Result::Err(e) => {
            return Result::Err(e);
        },
    };
    let issues = match decode_scope(entries, "issues", &table) {
        Result::Ok(p) => p,
        Result::Err(e) => {
            return Result::Err(e);
        },
    };
    let discussions = match decode_scope(entries, "discussions", &table) {
        Result::Ok(p) => p,
        Result::Err(e) => {
            return Result::Err(e);
        },
    };
    let packages = match decode_scope(entries, "packages", &table) {
        Result::Ok(p) => p,
        Result::Err(e) => {
            return Result::Err(e);
        },
    };
    let pages = match decode_scope(entries, "pages", &table) {
        Result::Ok(p) => p,
        Result::Err(e) => {
            return Result::Err(e);
        },
    };
    let pull_requests = match decode_scope(entries, "pull-requests", &table) {
        Result::Ok(p) => p,
        Result::Err(e) => {
            return Result::Err(e);
        },
    };
    let repository_projects = match decode_scope(entries, "repository-projects", &table) {
        Result::Ok(p) => p,
        Result::Err(e) => {
            return Result::Err(e);
        },
    };
    let security_events = match decode_scope(entries, "security-events", &table) {
        Result::Ok(p) => p,
        Result::Err(e) => {
            return Result::Err(e);
        },
    };
    let statuses = match decode_scope(entries, "statuses", &table) {
        Result::Ok(p) => p,
        Result::Err(e) => {
            return Result::Err(e);
        },
    };
    Result::Ok(
        ExplicitPermissions {
            actions,
            checks,
            contents,
            deployments,
            id_token,
            issues,
            discussions,
            packages,
            pages,
            pull_requests,
            repository_projects,
            security_events,
            statuses,
        },
    )
}

/// The candidate shapes of the permissions union, in declared
/// precedence order: a base keyword scalar, then an explicit record.
pub open spec fn spec_permissions_shapes() -> Seq<SpecShape> {
    seq![SpecShape::TextScalar, SpecShape::MappingShape]
}

/// Decoding the permissions union: the first candidate shape that
/// accepts the node decides, and its decoder's outcome is final.
pub open spec fn spec_decode_permissions(n: Node, policy: UnknownFieldPolicy) -> Result<
    Permissions,
    SpecErr,
> {
    match spec_resolve(spec_permissions_shapes(), n) {
        Option::Some(i) => if i == 0 {
            match spec_resolve_enum(
                Option::Some(n),
                spec_base_permission_table(),
                BasePermission::Default,
            ) {
                Result::Ok(b) => Result::Ok(Permissions::Base(b)),
                Result::Err(e) => Result::Err(e),
            }
        } else {
            match spec_decode_explicit(n, policy) {
                Result::Ok(e) => Result::Ok(Permissions::Explicit(e)),
                Result::Err(e) => Result::Err(e),
            }
        },
        Option::None => Result::Err(
            spec_err(
                SpecErrKind::NoMatchingShape {
                    found: n.spec_kind_name(),
                    tried: spec_permissions_shapes(),
                },
                n.loc,
            ),
        ),
    }
}

/// Decodes the permissions union: a base keyword scalar, or an explicit
/// per-scope record.
pub fn decode_permissions(n: &Node, policy: UnknownFieldPolicy) -> (r: Result<
    Permissions,
    DecodeError,
>)
    ensures
        res_view(r) == spec_decode_permissions(*n, policy),
{
    let mut candidates: Vec<Shape> = Vec::new();
    candidates.push(Shape::TextScalar);
    candidates.push(Shape::MappingShape);
    proof {
        assert(candidates@.map_values(|s: Shape| s@) =~= spec_permissions_shapes());
    }
    match crate::shape::resolve_first(&candidates, n) {
        Option::Some(0) => {
            let table = base_permission_table();
            match resolve_enum(Option::Some(n), &table, BasePermission::Default) {
                Result::Ok(b) => Result::Ok(Permissions::Base(b)),
                Result::Err(e) => Result::Err(e),
            }
        },
        Option::Some(_) => match decode_explicit_permissions(n, policy) {
            Result::Ok(e) => Result::Ok(Permissions::Explicit(e)),
            Result::Err(e) => Result::Err(e),
        },
        Option::None => Result::Err(
            DecodeError::at(
                ErrorKind::NoMatchingShape { found: n.kind_name(), tried: candidates },
                n.loc,
            ),
        ),
    }
}

/// The canonical keyword of a scope permission level.
pub open spec fn spec_permission_keyword(p: Permission) -> Seq<char> {
    match p {
        Permission::Read => "read"@,
        Permission::Write => "write"@,
        Permission::NoAccess => "none"@,
    }
}

/// Writes a scope permission level as its canonical keyword.
pub fn encode_permission(p: Permission) -> (kw: String)
    ensures
        kw@ == spec_permission_keyword(p),
{
    match p {
        Permission::Read => "read".to_owned(),
        Permission::Write => "write".to_owned(),
        Permission::NoAccess => "none".to_owned(),
    }
}

/// Looking a canonical permission keyword up finds its own level.
pub proof fn lemma_permission_lookup(p: Permission)
    ensures
        spec_table_lookup(spec_permission_keyword(p), spec_permission_table()) == Option::Some(p),
{
    reveal_strlit("read");
    reveal_strlit("write");
    reveal_strlit("none");
    reveal_with_fuel(spec_table_lookup, 5);
    let t = spec_permission_table();
    assert(t.drop_first() =~= seq![("write"@, Permission::Write), ("none"@, Permission::NoAccess)]);
    assert(t.drop_first().drop_first() =~= seq![("none"@, Permission::NoAccess)]);
    match p {
        Permission::Read => {
            assert(keyword_folds_to("read"@, "read"@));
        },
        Permission::Write => {
            assert(keyword_folds_to("write"@, "write"@));
        },
        Permission::NoAccess => {
            assert(!fold_matches("none"@[0], "read"@[0]));
            assert(keyword_folds_to("none"@, "none"@));
        },
    }
}

/// The canonical keyword of a base permission.
pub open spec fn spec_base_permission_keyword(b: BasePermission) -> Seq<char> {
    match b {
        BasePermission::Default => "default"@,
        BasePermission::ReadAll => "read-all"@,
        BasePermission::WriteAll => "write-all"@,
    }
}

/// Writes a base permission as its canonical keyword.
pub fn encode_base_permission(b: BasePermission) -> (kw: String)
    ensures
        kw@ == spec_base_permission_keyword(b),
{
    match b {
        BasePermission::Default => "default".to_owned(),
        BasePermission::ReadAll => "read-all".to_owned(),
        BasePermission::WriteAll => "write-all".to_owned(),
    }
}

/// Looking a canonical base permission keyword up finds its own
/// variant.
pub proof fn lemma_base_permission_lookup(b: BasePermission)
    ensures
        spec_table_lookup(
            spec_base_permission_keyword(b),
            spec_base_permission_table(),
        ) == Option::Some(b),
{
    reveal_strlit("default");
    reveal_strlit("read-all");
    reveal_strlit("write-all");
    reveal_with_fuel(spec_table_lookup, 5);
    let t = spec_base_permission_table();
    assert(t.drop_first() =~= seq![
        ("read-all"@, BasePermission::ReadAll),
        ("write-all"@, BasePermission::WriteAll),
    ]);
    assert(t.drop_first().drop_first() =~= seq![("write-all"@, BasePermission::WriteAll)]);
    match b {
        BasePermission::Default => {
            assert(keyword_folds_to("default"@, "default"@));
        },
        BasePermission::ReadAll => {
            assert(keyword_folds_to("read-all"@, "read-all"@));
        },
        BasePermission::WriteAll => {
            assert(keyword_folds_to("write-all"@, "write-all"@));
        },
    }
}

/// Writes the explicit permissions record back as a mapping node, every
/// scope under its declared key in declared order.  Decoding the result
/// under either policy gives the record back: encode followed by decode
/// is the identity on explicit permission records.
#[verifier::rlimit(100)]
pub fn encode_explicit_permissions(e: &ExplicitPermissions) -> (n: Node)
    ensures
        n.kind is Mapping,
        forall|pol: UnknownFieldPolicy| #[trigger]
            spec_decode_explicit(n, pol) == Result::<ExplicitPermissions, SpecErr>::Ok(*e),
{
    let mut entries: Vec<(String, Node)> = Vec::new();
    entries.push(("actions".to_owned(), Node::new(NodeKind::Text(encode_permission(e.actions)))));
    entries.push(("checks".to_owned(), Node::new(NodeKind::Text(encode_permission(e.checks)))));
    entries.push(
        ("contents".to_owned(), Node::new(NodeKind::Text(encode_permission(e.contents)))),
    );
    entries.push(
        ("deployments".to_owned(), Node::new(NodeKind::Text(encode_permission(e.deployments)))),
    );
    entries.push(
        ("id-token".to_owned(), Node::new(NodeKind::Text(encode_permission(e.id_token)))),
    );
    entries.push(("issues".to_owned(), Node::new(NodeKind::Text(encode_permission(e.issues)))));
    entries.push(
        ("discussions".to_owned(), Node::new(NodeKind::Text(encode_permission(e.discussions)))),
    );
    entries.push(
        ("packages".to_owned(), Node::new(NodeKind::Text(encode_permission(e.packages)))),
    );
    entries.push(("pages".to_owned(), Node::new(NodeKind::Text(encode_permission(e.pages)))));
    entries.push(
        ("pull-requests".to_owned(), Node::new(NodeKind::Text(encode_permission(e.pull_requests)))),
    );
    entries.push(
        (
            "repository-projects".to_owned(),
            Node::new(NodeKind::Text(encode_permission(e.repository_projects))),
        ),
    );
    entries.push(
        (
            "security-events".to_owned(),
            Node::new(NodeKind::Text(encode_permission(e.security_events))),
        ),
    );
    entries.push(
        ("statuses".to_owned(), Node::new(NodeKind::Text(encode_permission(e.statuses)))),
    );
    let n = Node::new(NodeKind::Mapping(entries));
    proof {
        let es = n.kind->Mapping_0@;
        reveal_strlit("actions");
        reveal_strlit("checks");
        reveal_strlit("contents");
        reveal_strlit("deployments");
        reveal_strlit("id-token");
        reveal_strlit("issues");
        reveal_strlit("discussions");
        reveal_strlit("packages");
        reveal_strlit("pages");
        reveal_strlit("pull-requests");
        reveal_strlit("repository-projects");
        reveal_strlit("security-events");
        reveal_strlit("statuses");
        reveal_with_fuel(spec_lookup, 16);
        reveal_with_fuel(spec_first_unknown, 16);
        assert(es.len() == 13);
        assert(es[0].0@ == "actions"@);
        assert(es[1].0@ == "checks"@);
        assert(es[2].0@ == "contents"@);
        assert(es[3].0@ == "deployments"@);
        assert(es[4].0@ == "id-token"@);
        assert(es[5].0@ == "issues"@);
        assert(es[6].0@ == "discussions"@);
        assert(es[7].0@ == "packages"@);
        assert(es[8].0@ == "pages"@);
        assert(es[9].0@ == "pull-requests"@);
        assert(es[10].0@ == "repository-projects"@);
        assert(es[11].0@ == "security-events"@);
        assert(es[12].0@ == "statuses"@);
        assert("actions"@.len() == 7);
        assert("checks"@.len() == 6);
        assert("contents"@.len() == 8);
        assert("deployments"@.len() == 11);
        assert("id-token"@.len() == 8);
        assert("issues"@.len() == 6);
        assert("discussions"@.len() == 11);
        assert("packages"@.len() == 8);
        assert("pages"@.len() == 5);
        assert("pull-requests"@.len() == 13);
        assert("repository-projects"@.len() == 19);
        assert("security-events"@.len() == 15);
        assert("statuses"@.len() == 8);
        assert("checks"@[0] == 'c' && "issues"@[0] == 'i');
        assert("contents"@[0] == 'c' && "id-token"@[0] == 'i' && "packages"@[0] == 'p'
            && "statuses"@[0] == 's');
        assert("deployments"@[0] == 'd' && "discussions"@[1] == 'i');
        assert("deployments"@[1] == 'e');
        assert(spec_lookup(es, "actions"@) == Option::Some(es[0].1));
        assert(spec_lookup(es, "checks"@) == Option::Some(es[1].1));
        assert(spec_lookup(es, "contents"@) == Option::Some(es[2].1));
        assert(spec_lookup(es, "deployments"@) == Option::Some(es[3].1));
        assert(spec_lookup(es, "id-token"@) == Option::Some(es[4].1));
        assert(spec_lookup(es, "issues"@) == Option::Some(es[5].1));
        assert(spec_lookup(es, "discussions"@) == Option::Some(es[6].1));
        assert(spec_lookup(es, "packages"@) == Option::Some(es[7].1));
        assert(spec_lookup(es, "pages"@) == Option::Some(es[8].1));
        assert(spec_lookup(es, "pull-requests"@) == Option::Some(es[9].1));
        assert(spec_lookup(es, "repository-projects"@) == Option::Some(es[10].1));
        assert(spec_lookup(es, "security-events"@) == Option::Some(es[11].1));
        assert(spec_lookup(es, "statuses"@) == Option::Some(es[12].1));
        lemma_permission_lookup(e.actions);
        lemma_permission_lookup(e.checks);
        lemma_permission_lookup(e.contents);
        lemma_permission_lookup(e.deployments);
        lemma_permission_lookup(e.id_token);
        lemma_permission_lookup(e.issues);
        lemma_permission_lookup(e.discussions);
        lemma_permission_lookup(e.packages);
        lemma_permission_lookup(e.pages);
        lemma_permission_lookup(e.pull_requests);
        lemma_permission_lookup(e.repository_projects);
        lemma_permission_lookup(e.security_events);
        lemma_permission_lookup(e.statuses);
        assert(spec_scope(es, "actions"@) == Result::<Permission, SpecErr>::Ok(e.actions));
        assert(spec_scope(es, "checks"@) == Result::<Permission, SpecErr>::Ok(e.checks));
        assert(spec_scope(es, "contents"@) == Result::<Permission, SpecErr>::Ok(e.contents));
        assert(spec_scope(es, "deployments"@) == Result::<Permission, SpecErr>::Ok(e.deployments));
        assert(spec_scope(es, "id-token"@) == Result::<Permission, SpecErr>::Ok(e.id_token));
        assert(spec_scope(es, "issues"@) == Result::<Permission, SpecErr>::Ok(e.issues));
        assert(spec_scope(es, "discussions"@) == Result::<Permission, SpecErr>::Ok(e.discussions));
        assert(spec_scope(es, "packages"@) == Result::<Permission, SpecErr>::Ok(e.packages));
        assert(spec_scope(es, "pages"@) == Result::<Permission, SpecErr>::Ok(e.pages));
        assert(spec_scope(es, "pull-requests"@) == Result::<Permission, SpecErr>::Ok(
            e.pull_requests,
        ));
        assert(spec_scope(es, "repository-projects"@) == Result::<Permission, SpecErr>::Ok(
            e.repository_projects,
        ));
        assert(spec_scope(es, "security-events"@) == Result::<Permission, SpecErr>::Ok(
            e.security_events,
        ));
        assert(spec_scope(es, "statuses"@) == Result::<Permission, SpecErr>::Ok(e.statuses));
        assert(key_allowed("actions"@, spec_scope_keys())) by {
            assert(spec_scope_keys()[0] == "actions"@);
        }
        assert(key_allowed("checks"@, spec_scope_keys())) by {
            assert(spec_scope_keys()[1] == "checks"@);
        }
        assert(key_allowed("contents"@, spec_scope_keys())) by {
            assert(spec_scope_keys()[2] == "contents"@);
        }
        assert(key_allowed("deployments"@, spec_scope_keys())) by {
            assert(spec_scope_keys()[3] == "deployments"@);
        }
        assert(key_allowed("id-token"@, spec_scope_keys())) by {
            assert(spec_scope_keys()[4] == "id-token"@);
        }
        assert(key_allowed("issues"@, spec_scope_keys())) by {
            assert(spec_scope_keys()[5] == "issues"@);
        }
        assert(key_allowed("discussions"@, spec_scope_keys())) by {
            assert(spec_scope_keys()[6] == "discussions"@);
        }
        assert(key_allowed("packages"@, spec_scope_keys())) by {
            assert(spec_scope_keys()[7] == "packages"@);
        }
        assert(key_allowed("pages"@, spec_scope_keys())) by {
            assert(spec_scope_keys()[8] == "pages"@);
        }
        assert(key_allowed("pull-requests"@, spec_scope_keys())) by {
            assert(spec_scope_keys()[9] == "pull-requests"@);
        }
        assert(key_allowed("repository-projects"@, spec_scope_keys())) by {
            assert(spec_scope_keys()[10] == "repository-projects"@);
        }
        assert(key_allowed("security-events"@, spec_scope_keys())) by {
            assert(spec_scope_keys()[11] == "security-events"@);
        }
        assert(key_allowed("statuses"@, spec_scope_keys())) by {
            assert(spec_scope_keys()[12] == "statuses"@);
        }
        assert(spec_first_unknown(es, spec_scope_keys()) is None);
        assert forall|pol: UnknownFieldPolicy| #[trigger] spec_decode_explicit(n, pol)
            == Result::<ExplicitPermissions, SpecErr>::Ok(*e) by {
            assert(spec_check_keys(es, spec_scope_keys(), pol, n.loc) == Result::<(), SpecErr>::Ok(
                (),
            ));
        }
    }
    n
}

/// Writes a permissions value back as a node: a base permission as its
/// keyword scalar, an explicit record as a mapping.  Decoding the
/// result under either policy gives the value back: encode followed by
/// decode is the identity on permissions.
pub fn encode_permissions(p: &Permissions) -> (n: Node)
    ensures
        forall|pol: UnknownFieldPolicy| #[trigger]
            spec_decode_permissions(n, pol) == Result::<Permissions, SpecErr>::Ok(*p),
        n.kind is Text || n.kind is Mapping,
{
    match p {
        Permissions::Base(b) => {
            let n = Node::new(NodeKind::Text(encode_base_permission(*b)));
            proof {
                assert(spec_resolve(spec_permissions_shapes(), n) == Option::<int>::Some(0));
                lemma_base_permission_lookup(*b);
            }
            n
        },
        Permissions::Explicit(ex) => {
            let n = encode_explicit_permissions(ex);
            proof {
                reveal_with_fuel(spec_resolve, 3);
                assert(spec_permissions_shapes().drop_first() =~= seq![SpecShape::MappingShape]);
                assert(spec_resolve(spec_permissions_shapes(), n) == Option::<int>::Some(1));
            }
            n
        },
    }
}

/// An environment value: text, a number carried as its decimal text, or
/// a boolean.  The origin is kept only so that stringification can pick
/// the right rule.
#[derive(Debug, Clone, PartialEq)]
pub enum EnvValue {
    Text(String),
    Number(String),
    Boolean(bool),
}

/// The ghost form of an environment value.
pub enum SpecEnvValue {
    Text(Seq<char>),
    Number(Seq<char>),
    Boolean(bool),
}

impl View for EnvValue {
    type V = SpecEnvValue;

    open spec fn view(&self) -> SpecEnvValue {
        match self {
            EnvValue::Text(s) => SpecEnvValue::Text(s@),
            EnvValue::Number(t) => SpecEnvValue::Number(t@),
            EnvValue::Boolean(b) => SpecEnvValue::Boolean(*b),
        }
    }
}

/// The stringify-scalar rule: text stays itself, a number keeps its
/// decimal text, a boolean becomes canonical `true` or `false`.
pub open spec fn spec_env_string(v: SpecEnvValue) -> Seq<char> {
    match v {
        SpecEnvValue::Text(s) => s,
        SpecEnvValue::Number(t) => t,
        SpecEnvValue::Boolean(b) => if b {
            "true"@
        } else {
            "false"@
        },
    }
}

impl EnvValue {
    /// Applies the stringify-scalar rule.
    pub fn to_string(&self) -> (r: String)
        ensures
            r@ == spec_env_string(self@),
    {
        match self {
            EnvValue::Text(s) => s.clone(),
            EnvValue::Number(t) => t.clone(),
            EnvValue::Boolean(b) => if *b {
                "true".to_owned()
            } else {
                "false".to_owned()
            },
        }
    }
}

/// An environment block: values by name, insertion order kept.
pub type Env = Vec<(String, EnvValue)>;

/// The ghost form of an environment block.
pub open spec fn env_view(e: Seq<(String, EnvValue)>) -> Seq<(Seq<char>, SpecEnvValue)> {
    e.map_values(|p: (String, EnvValue)| (p.0@, p.1@))
}

/// The candidate shapes of an environment value, in declared order.
pub open spec fn spec_env_value_shapes() -> Seq<SpecShape> {
    seq![SpecShape::TextScalar, SpecShape::NumberScalar, SpecShape::BoolScalar]
}

/// Decoding one environment value.
pub open spec fn spec_decode_env_value(n: Node) -> Result<SpecEnvValue, SpecErr> {
    match spec_resolve(spec_env_value_shapes(), n) {
        Option::Some(i) => if i == 0 {
            Result::Ok(SpecEnvValue::Text(n.kind->Text_0@))
        } else if i == 1 {
            Result::Ok(SpecEnvValue::Number(n.kind->Number_0@))
        } else {
            Result::Ok(SpecEnvValue::Boolean(n.kind->Bool_0))
        },
        Option::None => Result::Err(
            spec_err(
                SpecErrKind::NoMatchingShape {
                    found: n.spec_kind_name(),
                    tried: spec_env_value_shapes(),
                },
                n.loc,
            ),
        ),
    }
}

/// Decodes one environment value: text, number, or boolean scalar.
pub fn decode_env_value(n: &Node) -> (r: Result<EnvValue, DecodeError>)
    ensures
        match r {
            Result::Ok(v) => spec_decode_env_value(*n) == Result::<SpecEnvValue, SpecErr>::Ok(v@),
            Result::Err(e) => spec_decode_env_value(*n) == Result::<SpecEnvValue, SpecErr>::Err(
                e@,
            ),
        },
{
    let mut candidates: Vec<Shape> = Vec::new();
    candidates.push(Shape::TextScalar);
    candidates.push(Shape::NumberScalar);
    candidates.push(Shape::BoolScalar);
    proof {
        assert(candidates@.map_values(|s: Shape| s@) =~= spec_env_value_shapes());
    }
    match crate::shape::resolve_first(&candidates, n) {
        Option::Some(i) => {
            proof {
                crate::shape::lemma_resolve_first_match(spec_env_value_shapes(), *n);
            }
            if i == 0 {
                match &n.kind {
                    NodeKind::Text(s) => Result::Ok(EnvValue::Text(s.clone())),
                    _ => unreached(),
                }
            } else if i == 1 {
                match &n.kind {
                    NodeKind::Number(t) => Result::Ok(EnvValue::Number(t.clone())),
                    _ => unreached(),
                }
            } else {
                match &n.kind {
                    NodeKind::Bool(b) => Result::Ok(EnvValue::Boolean(*b)),
                    _ => unreached(),
                }
            }
        },
        Option::None => Result::Err(
            DecodeError::at(
                ErrorKind::NoMatchingShape { found: n.kind_name(), tried: candidates },
                n.loc,
            ),
        ),
    }
}

/// Decoding an ordered list of environment entries; the first failing
/// value aborts, reported under its key.
pub open spec fn spec_decode_env_entries(entries: Seq<(String, Node)>) -> Result<
    Seq<(Seq<char>, SpecEnvValue)>,
    SpecErr,
>
    decreases entries.len(),
{
    if entries.len() == 0 {
        Result::Ok(Seq::empty())
    } else {
        match spec_decode_env_value(entries[0].1) {
            Result::Err(e) => Result::Err(crate::error::spec_under_key(entries[0].0@, e)),
            Result::Ok(v) => match spec_decode_env_entries(entries.drop_first()) {
                Result::Err(e) => Result::Err(e),
                Result::Ok(rest) => Result::Ok(seq![(entries[0].0@, v)] + rest),
            },
        }
    }
}

/// Decoding an environment block: a mapping whose values are scalars.
pub open spec fn spec_decode_env(n: Node) -> Result<Seq<(Seq<char>, SpecEnvValue)>, SpecErr> {
    match n.kind {
        NodeKind::Mapping(es) => spec_decode_env_entries(es@),
        _ => Result::Err(
            spec_err(
                SpecErrKind::ShapeMismatch {
                    expected: KindName::MappingKind,
                    found: n.spec_kind_name(),
                },
                n.loc,
            ),
        ),
    }
}

/// Decodes an environment block, keeping entry order.
pub fn decode_env(n: &Node) -> (r: Result<Env, DecodeError>)
    ensures
        match r {
            Result::Ok(v) => spec_decode_env(*n) == Result::<
                Seq<(Seq<char>, SpecEnvValue)>,
                SpecErr,
            >::Ok(env_view(v@)),
            Result::Err(e) => spec_decode_env(*n) == Result::<
                Seq<(Seq<char>, SpecEnvValue)>,
                SpecErr,
            >::Err(e@),
        },
{
    let entries = match &n.kind {
        NodeKind::Mapping(es) => es,
        _ => {
            return Result::Err(
                DecodeError::at(
                    ErrorKind::ShapeMismatch {
                        expected: KindName::MappingKind,
                        found: n.kind_name(),
                    },
                    n.loc,
                ),
            );
        },
    };
    let mut acc: Env = Vec::new();
    let mut i: usize = 0;
    assert(entries@.skip(0) =~= entries@);
    assert(env_view(acc@) + spec_decode_env_entries(entries@)->Ok_0 == spec_decode_env_entries(
        entries@,
    )->Ok_0 || spec_decode_env_entries(entries@) is Err) by {
        assert(env_view(acc@) =~= Seq::<(Seq<char>, SpecEnvValue)>::empty());
        if spec_decode_env_entries(entries@) is Ok {
            assert(env_view(acc@) + spec_decode_env_entries(entries@)->Ok_0
                =~= spec_decode_env_entries(entries@)->Ok_0);
        }
    }
    while i < entries.len()
        invariant
            i <= entries@.len(),
            n.kind == NodeKind::Mapping(*entries),
            match spec_decode_env_entries(entries@.skip(i as int)) {
                Result::Ok(rest) => spec_decode_env_entries(entries@) == Result::<
                    Seq<(Seq<char>, SpecEnvValue)>,
                    SpecErr,
                >::Ok(env_view(acc@) + rest),
                Result::Err(e) => spec_decode_env_entries(entries@) == Result::<
                    Seq<(Seq<char>, SpecEnvValue)>,
                    SpecErr,
                >::Err(e),
            },
        decreases entries@.len() - i,
    {
        assert(entries@.skip(i as int)[0] == entries@[i as int]);
        assert(entries@.skip(i as int).drop_first() =~= entries@.skip(i as int + 1));
        match decode_env_value(&entries[i].1) {
            Result::Err(e) => {
                proof {
                    assert(spec_decode_env_entries(entries@.skip(i as int)) == Result::<
                        Seq<(Seq<char>, SpecEnvValue)>,
                        SpecErr,
                    >::Err(crate::error::spec_under_key(entries@[i as int].0@, e@)));
                }
                return Result::Err(e.under_key(entries[i].0.as_str()));
            },
            Result::Ok(v) => {
                let ghost old_acc = acc@;
                acc.push((entries[i].0.clone(), v));
                proof {
                    assert(env_view(acc@) =~= env_view(old_acc) + seq![
                        (entries@[i as int].0@, v@),
                    ]);
                    if spec_decode_env_entries(entries@.skip(i as int + 1)) is Ok {
                        assert(env_view(old_acc) + (seq![(entries@[i as int].0@, v@)]
                            + spec_decode_env_entries(entries@.skip(i as int + 1))->Ok_0)
                            =~= env_view(acc@) + spec_decode_env_entries(
                            entries@.skip(i as int + 1),
                        )->Ok_0);
                    }
                }
            },
        }
        i = i + 1;
    }
    proof {
        assert(entries@.skip(i as int) =~= Seq::<(String, Node)>::empty());
        assert(env_view(acc@) + Seq::<(Seq<char>, SpecEnvValue)>::empty() =~= env_view(acc@));
    }
    Result::Ok(acc)
}

/// Writes an environment value back as a scalar node of its origin
/// kind.  Decoding the result gives the value back.
pub fn encode_env_value(v: &EnvValue) -> (n: Node)
    ensures
        spec_decode_env_value(n) == Result::<SpecEnvValue, SpecErr>::Ok(v@),
{
    match v {
        EnvValue::Text(s) => Node::new(NodeKind::Text(s.clone())),
        EnvValue::Number(t) => {
            let n = Node::new(NodeKind::Number(t.clone()));
            proof {
                reveal_with_fuel(spec_resolve, 4);
                assert(spec_env_value_shapes().drop_first() =~= seq![
                    SpecShape::NumberScalar,
                    SpecShape::BoolScalar,
                ]);
                assert(spec_resolve(spec_env_value_shapes(), n) == Option::<int>::Some(1));
            }
            n
        },
        EnvValue::Boolean(b) => {
            let n = Node::new(NodeKind::Bool(*b));
            proof {
                reveal_with_fuel(spec_resolve, 4);
                assert(spec_env_value_shapes().drop_first() =~= seq![
                    SpecShape::NumberScalar,
                    SpecShape::BoolScalar,
                ]);
                assert(spec_env_value_shapes().drop_first().drop_first() =~= seq![
                    SpecShape::BoolScalar,
                ]);
                assert(spec_resolve(spec_env_value_shapes(), n) == Option::<int>::Some(2));
            }
            n
        },
    }
}

/// Entries whose values each decode back to their own environment value
/// decode, as a list, to the matching environment block.
proof fn lemma_env_entries_roundtrip(entries: Seq<(String, Node)>, env: Seq<(String, EnvValue)>)
    requires
        entries.len() == env.len(),
        forall|i: int|
            0 <= i < entries.len() ==> (#[trigger] entries[i].0@) == env[i].0@
                && spec_decode_env_value(entries[i].1) == Result::<SpecEnvValue, SpecErr>::Ok(
                env[i].1@,
            ),
    ensures
        spec_decode_env_entries(entries) == Result::<Seq<(Seq<char>, SpecEnvValue)>, SpecErr>::Ok(
            env_view(env),
        ),
    decreases entries.len(),
{
    if entries.len() == 0 {
        assert(env_view(env) =~= Seq::<(Seq<char>, SpecEnvValue)>::empty());
    } else {
        lemma_env_entries_roundtrip(entries.drop_first(), env.drop_first());
        assert(env_view(env) =~= seq![(env[0].0@, env[0].1@)] + env_view(env.drop_first()));
    }
}

/// Writes an environment block back as a mapping node, entries in
/// stored order.  Decoding the result gives the block back: encode
/// followed by decode is the identity on environment blocks.
pub fn encode_env(env: &Env) -> (n: Node)
    ensures
        n.kind is Mapping,
        spec_decode_env(n) == Result::<Seq<(Seq<char>, SpecEnvValue)>, SpecErr>::Ok(env_view(env@)),
{
    let mut entries: Vec<(String, Node)> = Vec::new();
    let mut i: usize = 0;
    while i < env.len()
        invariant
            i <= env@.len(),
            entries@.len() == i,
            forall|j: int|
                0 <= j < i ==> (#[trigger] entries@[j].0@) == env@[j].0@ && spec_decode_env_value(
                    entries@[j].1,
                ) == Result::<SpecEnvValue, SpecErr>::Ok(env@[j].1@),
        decreases env@.len() - i,
    {
        entries.push((env[i].0.clone(), encode_env_value(&env[i].1)));
        i = i + 1;
    }
    let n = Node::new(NodeKind::Mapping(entries));
    proof {
        lemma_env_entries_roundtrip(n.kind->Mapping_0@, env@);
    }
    n
}

/// A value that is either a literal of type `T` or an unevaluated
/// expression placeholder string.  The expression is recognized by its
/// shape only and kept verbatim; it is never evaluated.
#[derive(Debug, Clone, PartialEq)]
pub enum LoE<T> {
    Literal(T),
    Expr(String),
}

/// A boolean-or-expression value.
pub type BoE = LoE<bool>;

/// The ghost form of a boolean-or-expression value.
pub enum SpecBoE {
    Literal(bool),
    Expr(Seq<char>),
}

impl View for LoE<bool> {
    type V = SpecBoE;

    open spec fn view(&self) -> SpecBoE {
        match self {
            LoE::Literal(b) => SpecBoE::Literal(*b),
            LoE::Expr(s) => SpecBoE::Expr(s@),
        }
    }
}

impl Default for LoE<bool> {
    /// An absent boolean-or-expression field means the literal `false`.
    fn default() -> (r: Self)
        ensures
            r == LoE::<bool>::Literal(false),
    {
        LoE::Literal(false)
    }
}

/// Every boolean-or-expression value this decoder can produce: the
/// expression branch only ever holds a recognized placeholder.
pub open spec fn boe_wf(b: SpecBoE) -> bool {
    b is Expr ==> spec_is_expr(b->Expr_0)
}

/// The candidate shapes of a boolean-or-expression field, in declared
/// order: the boolean literal, then the expression string.
pub open spec fn spec_boe_shapes() -> Seq<SpecShape> {
    seq![SpecShape::BoolScalar, SpecShape::ExprText]
}

/// Decoding a boolean-or-expression field.  A plain boolean literal
/// takes the literal branch; a text scalar shaped like an expression
/// placeholder takes the expression branch; the two shapes are mutually
/// exclusive because they accept different node kinds.
pub open spec fn spec_decode_boe(n: Node) -> Result<SpecBoE, SpecErr> {
    match spec_resolve(spec_boe_shapes(), n) {
        Option::Some(i) => if i == 0 {
            Result::Ok(SpecBoE::Literal(n.kind->Bool_0))
        } else {
            Result::Ok(SpecBoE::Expr(n.kind->Text_0@))
        },
        Option::None => Result::Err(
            spec_err(
                SpecErrKind::NoMatchingShape { found: n.spec_kind_name(), tried: spec_boe_shapes() },
                n.loc,
            ),
        ),
    }
}

/// Decodes a boolean-or-expression field.
pub fn decode_boe(n: &Node) -> (r: Result<BoE, DecodeError>)
    ensures
        match r {
            Result::Ok(v) => spec_decode_boe(*n) == Result::<SpecBoE, SpecErr>::Ok(v@)
                && boe_wf(v@),
            Result::Err(e) => spec_decode_boe(*n) == Result::<SpecBoE, SpecErr>::Err(e@),
        },
{
    let mut candidates: Vec<Shape> = Vec::new();
    candidates.push(Shape::BoolScalar);
    candidates.push(Shape::ExprText);
    proof {
        assert(candidates@.map_values(|s: Shape| s@) =~= spec_boe_shapes());
    }
    match crate::shape::resolve_first(&candidates, n) {
        Option::Some(i) => {
            proof {
                crate::shape::lemma_resolve_first_match(spec_boe_shapes(), *n);
            }
            if i == 0 {
                match &n.kind {
                    NodeKind::Bool(b) => Result::Ok(LoE::Literal(*b)),
                    _ => unreached(),
                }
            } else {
                match &n.kind {
                    NodeKind::Text(s) => Result::Ok(LoE::Expr(s.clone())),
                    _ => unreached(),
                }
            }
        },
        Option::None => Result::Err(
            DecodeError::at(
                ErrorKind::NoMatchingShape { found: n.kind_name(), tried: candidates },
                n.loc,
            ),
        ),
    }
}

/// A value that is either a single `T` or a list of `T`.  The singular
/// case is stored as it arrived; nothing forces it into a list.
#[derive(Debug, Clone, PartialEq)]
pub enum SoV<T> {
    One(T),
    Many(Vec<T>),
}

impl<T> From<T> for SoV<T> {
    fn from(value: T) -> (r: Self) {
        SoV::One(value)
    }
}

impl<T> vstd::std_specs::convert::FromSpecImpl<T> for SoV<T> {
    open spec fn obeys_from_spec() -> bool {
        true
    }

    open spec fn from_spec(value: T) -> Self {
        SoV::One(value)
    }
}

impl<T> From<Vec<T>> for SoV<T> {
    fn from(value: Vec<T>) -> (r: Self) {
        SoV::Many(value)
    }
}

impl<T> vstd::std_specs::convert::FromSpecImpl<Vec<T>> for SoV<T> {
    open spec fn obeys_from_spec() -> bool {
        true
    }

    open spec fn from_spec(value: Vec<T>) -> Self {
        SoV::Many(value)
    }
}

/// The ghost form of a text scalar-or-vector value.
pub enum SpecSoVText {
    One(Seq<char>),
    Many(Seq<Seq<char>>),
}

impl View for SoV<String> {
    type V = SpecSoVText;

    open spec fn view(&self) -> SpecSoVText {
        match self {
            SoV::One(s) => SpecSoVText::One(s@),
            SoV::Many(v) => SpecSoVText::Many(v@.map_values(|s: String| s@)),
        }
    }
}

/// The singular-expand rule: the uniform sequence view of a
/// scalar-or-vector value.  A singular value becomes a one-element
/// sequence; the stored representation is untouched.
pub open spec fn spec_expand(v: SpecSoVText) -> Seq<Seq<char>> {
    match v {
        SpecSoVText::One(s) => seq![s],
        SpecSoVText::Many(m) => m,
    }
}

impl SoV<String> {
    /// Applies the singular-expand rule, cloning into a uniform list.
    pub fn expand(&self) -> (r: Vec<String>)
        ensures
            r@.map_values(|s: String| s@) == spec_expand(self@),
    {
        match self {
            SoV::One(s) => {
                let mut r: Vec<String> = Vec::new();
                r.push(s.clone());
                proof {
                    assert(r@.map_values(|t: String| t@) =~= spec_expand(self@));
                }
                r
            },
            SoV::Many(v) => {
                let mut r: Vec<String> = Vec::new();
                let mut i: usize = 0;
                while i < v.len()
                    invariant
                        i <= v@.len(),
                        self is Many && self->Many_0 == *v,
                        r@.len() == i,
                        forall|j: int| 0 <= j < i ==> #[trigger] r@[j]@ == v@[j]@,
                    decreases v@.len() - i,
                {
                    r.push(v[i].clone());
                    i = i + 1;
                }
                proof {
                    assert(r@.map_values(|t: String| t@) =~= spec_expand(self@));
                }
                r
            },
        }
    }
}

/// The candidate shapes of a text scalar-or-vector field, in declared
/// order: the single scalar, then the list.
pub open spec fn spec_sov_text_shapes() -> Seq<SpecShape> {
    seq![SpecShape::TextScalar, SpecShape::SequenceShape]
}

/// Decoding the elements of a text list; a non-text element aborts,
/// reported under its index.
pub open spec fn spec_decode_text_items(items: Seq<Node>, idx: int) -> Result<
    Seq<Seq<char>>,
    SpecErr,
>
    decreases items.len(),
{
    if items.len() == 0 {
        Result::Ok(Seq::empty())
    } else {
        match items[0].kind {
            NodeKind::Text(s) => match spec_decode_text_items(items.drop_first(), idx + 1) {
                Result::Err(e) => Result::Err(e),
                Result::Ok(rest) => Result::Ok(seq![s@] + rest),
            },
            _ => Result::Err(
                crate::error::spec_under_index(
                    idx,
                    spec_err(
                        SpecErrKind::TypeMismatch {
                            expected: KindName::TextKind,
                            found: items[0].spec_kind_name(),
                        },
                        items[0].loc,
                    ),
                ),
            ),
        }
    }
}

/// Decoding a text scalar-or-vector field.  A single text scalar stays
/// singular; a sequence of text scalars becomes the list branch.
pub open spec fn spec_decode_sov_text(n: Node) -> Result<SpecSoVText, SpecErr> {
    match spec_resolve(spec_sov_text_shapes(), n) {
        Option::Some(i) => if i == 0 {
            Result::Ok(SpecSoVText::One(n.kind->Text_0@))
        } else {
            match spec_decode_text_items(n.kind->Sequence_0@, 0) {
                Result::Err(e) => Result::Err(e),
                Result::Ok(items) => Result::Ok(SpecSoVText::Many(items)),
            }
        },
        Option::None => Result::Err(
            spec_err(
                SpecErrKind::NoMatchingShape {
                    found: n.spec_kind_name(),
                    tried: spec_sov_text_shapes(),
                },
                n.loc,
            ),
        ),
    }
}

/// Decodes a text scalar-or-vector field.
pub fn decode_sov_text(n: &Node) -> (r: Result<SoV<String>, DecodeError>)
    ensures
        match r {
            Result::Ok(v) => spec_decode_sov_text(*n) == Result::<SpecSoVText, SpecErr>::Ok(v@),
            Result::Err(e) => spec_decode_sov_text(*n) == Result::<SpecSoVText, SpecErr>::Err(e@),
        },
{
    let mut candidates: Vec<Shape> = Vec::new();
    candidates.push(Shape::TextScalar);
    candidates.push(Shape::SequenceShape);
    proof {
        assert(candidates@.map_values(|s: Shape| s@) =~= spec_sov_text_shapes());
    }
    match crate::shape::resolve_first(&candidates, n) {
        Option::Some(i) => {
            proof {
                crate::shape::lemma_resolve_first_match(spec_sov_text_shapes(), *n);
            }
            if i == 0 {
                match &n.kind {
                    NodeKind::Text(s) => Result::Ok(SoV::One(s.clone())),
                    _ => unreached(),
                }
            } else {
                let items = match &n.kind {
                    NodeKind::Sequence(items) => items,
                    _ => unreached(),
                };
                let ghost ri = i as int;
                let mut acc: Vec<String> = Vec::new();
                let mut j: usize = 0;
                assert(items@.skip(0) =~= items@);
                assert(acc@.map_values(|s: String| s@) =~= Seq::<Seq<char>>::empty());
                while j < items.len()
                    invariant
                        j <= items@.len(),
                        spec_resolve(spec_sov_text_shapes(), *n) == Option::Some(ri),
                        ri != 0,
                        n.kind == NodeKind::Sequence(*items),
                        acc@.len() == j,
                        match spec_decode_text_items(items@.skip(j as int), j as int) {
                            Result::Ok(rest) => spec_decode_text_items(items@, 0) == Result::<
                                Seq<Seq<char>>,
                                SpecErr,
                            >::Ok(acc@.map_values(|s: String| s@) + rest),
                            Result::Err(e) => spec_decode_text_items(items@, 0) == Result::<
                                Seq<Seq<char>>,
                                SpecErr,
                            >::Err(e),
                        },
                    decreases items@.len() - j,
                {
                    assert(items@.skip(j as int)[0] == items@[j as int]);
                    assert(items@.skip(j as int).drop_first() =~= items@.skip(j as int + 1));
                    match &items[j].kind {
                        NodeKind::Text(s) => {
                            let ghost old_acc = acc@;
                            acc.push(s.clone());
                            proof {
                                if spec_decode_text_items(items@.skip(j as int + 1), j as int
                                    + 1) is Ok {
                                    assert(old_acc.map_values(|t: String| t@) + (seq![s@]
                                        + spec_decode_text_items(
                                        items@.skip(j as int + 1),
                                        j as int + 1,
                                    )->Ok_0) =~= acc@.map_values(|t: String| t@)
                                        + spec_decode_text_items(
                                        items@.skip(j as int + 1),
                                        j as int + 1,
                                    )->Ok_0);
                                }
                            }
                        },
                        _ => {
                            let e = DecodeError::at(
                                ErrorKind::TypeMismatch {
                                    expected: KindName::TextKind,
                                    found: items[j].kind_name(),
                                },
                                items[j].loc,
                            );
                            proof {
                                assert(spec_decode_text_items(items@.skip(j as int), j as int)
                                    == Result::<Seq<Seq<char>>, SpecErr>::Err(
                                    crate::error::spec_under_index(
                                        j as int,
                                        spec_err(
                                            SpecErrKind::TypeMismatch {
                                                expected: KindName::TextKind,
                                                found: items@[j as int].spec_kind_name(),
                                            },
                                            items@[j as int].loc,
                                        ),
                                    ),
                                ));
                            }
                            return Result::Err(e.under_index(j));
                        },
                    }
                    j = j + 1;
                }
                proof {
                    assert(items@.skip(j as int) =~= Seq::<Node>::empty());
                    assert(acc@.map_values(|s: String| s@) + Seq::<Seq<char>>::empty()
                        =~= acc@.map_values(|s: String| s@));
                }
                Result::Ok(SoV::Many(acc))
            }
        },
        Option::None => Result::Err(
            DecodeError::at(
                ErrorKind::NoMatchingShape { found: n.kind_name(), tried: candidates },
                n.loc,
            ),
        ),
    }
}

/// Writes a boolean-or-expression value back as a node: the literal as
/// a boolean scalar, the expression as its text.  Decoding the result
/// gives the value back: encode followed by decode is the identity on
/// well-formed values.
pub fn encode_boe(b: &BoE) -> (n: Node)
    requires
        boe_wf(b@),
    ensures
        spec_decode_boe(n) == Result::<SpecBoE, SpecErr>::Ok(b@),
        n.kind is Bool || n.kind is Text,
{
    match b {
        LoE::Literal(v) => Node::new(NodeKind::Bool(*v)),
        LoE::Expr(s) => {
            let n = Node::new(NodeKind::Text(s.clone()));
            proof {
                reveal_with_fuel(spec_resolve, 3);
                assert(spec_boe_shapes().drop_first() =~= seq![SpecShape::ExprText]);
                assert(spec_resolve(spec_boe_shapes(), n) == Option::<int>::Some(1));
            }
            n
        },
    }
}

/// Text nodes that carry the given strings decode, as a list, to those
/// strings, from any starting index.
proof fn lemma_text_items_roundtrip(items: Seq<Node>, texts: Seq<Seq<char>>, idx: int)
    requires
        items.len() == texts.len(),
        forall|i: int|
            0 <= i < items.len() ==> (#[trigger] items[i].kind) is Text && items[i].kind->Text_0@
                == texts[i],
    ensures
        spec_decode_text_items(items, idx) == Result::<Seq<Seq<char>>, SpecErr>::Ok(texts),
    decreases items.len(),
{
    if items.len() == 0 {
        assert(texts =~= Seq::<Seq<char>>::empty());
    } else {
        lemma_text_items_roundtrip(items.drop_first(), texts.drop_first(), idx + 1);
        assert(texts =~= seq![texts[0]] + texts.drop_first());
    }
}

/// Writes a text scalar-or-vector value back as a node: the singular
/// value as a text scalar, the list as a sequence of text scalars.
/// Decoding the result gives the value back: encode followed by decode
/// is the identity on text scalar-or-vector values.
pub fn encode_sov_text(v: &SoV<String>) -> (n: Node)
    ensures
        spec_decode_sov_text(n) == Result::<SpecSoVText, SpecErr>::Ok(v@),
        n.kind is Text || n.kind is Sequence,
{
    match v {
        SoV::One(s) => Node::new(NodeKind::Text(s.clone())),
        SoV::Many(strings) => {
            let mut items: Vec<Node> = Vec::new();
            let mut i: usize = 0;
            while i < strings.len()
                invariant
                    i <= strings@.len(),
                    items@.len() == i,
                    forall|j: int|
                        0 <= j < i ==> (#[trigger] items@[j].kind) is Text
                            && items@[j].kind->Text_0@ == strings@[j]@,
                decreases strings@.len() - i,
            {
                items.push(Node::new(NodeKind::Text(strings[i].clone())));
                i = i + 1;
            }
            let n = Node::new(NodeKind::Sequence(items));
            proof {
                reveal_with_fuel(spec_resolve, 3);
                assert(spec_sov_text_shapes().drop_first() =~= seq![SpecShape::SequenceShape]);
                assert(spec_resolve(spec_sov_text_shapes(), n) == Option::<int>::Some(1));
                lemma_text_items_roundtrip(
                    n.kind->Sequence_0@,
                    strings@.map_values(|s: String| s@),
                    0,
                );
            }
            n
        },
    }
}

/// The defaulting law of the enum resolver: a wholly absent field
/// always yields the declared default, whatever the table holds.
pub proof fn lemma_absent_field_defaults<V>(table: Seq<(Seq<char>, V)>, default: V)
    ensures
        spec_resolve_enum(Option::None, table, default) == Result::<V, SpecErr>::Ok(default),
{
}

/// The defaulting law of the explicit permissions record: a scope whose
/// key is absent resolves to no access.
pub proof fn lemma_absent_scope_defaults(entries: Seq<(String, Node)>, key: Seq<char>)
    requires
        spec_lookup(entries, key) is None,
    ensures
        spec_scope(entries, key) == Result::<Permission, SpecErr>::Ok(Permission::NoAccess),
{
}

/// The branch law of literal-or-expression fields: a boolean literal
/// node always takes the literal branch, an expression-shaped text node
/// always takes the expression branch, and no node qualifies for both.
pub proof fn lemma_boe_branches(n: Node)
    ensures
        n.kind is Bool ==> spec_decode_boe(n) == Result::<SpecBoE, SpecErr>::Ok(
            SpecBoE::Literal(n.kind->Bool_0),
        ),
        (n.kind is Text && spec_is_expr(n.kind->Text_0@)) ==> spec_decode_boe(n) == Result::<
            SpecBoE,
            SpecErr,
        >::Ok(SpecBoE::Expr(n.kind->Text_0@)),
        !(n.kind is Bool && n.kind is Text),
{
    reveal_with_fuel(spec_resolve, 3);
    assert(spec_boe_shapes().drop_first() =~= seq![SpecShape::ExprText]);
}

/// The preservation law of scalar-or-vector fields: a single text
/// scalar and a one-element sequence carrying the same text decode to
/// distinct values — singular stays singular — while their expanded
/// views agree.
pub proof fn lemma_sov_singular_preserved(n1: Node, n2: Node)
    requires
        n1.kind is Text,
        n2.kind is Sequence,
        n2.kind->Sequence_0@.len() == 1,
        n2.kind->Sequence_0@[0].kind is Text,
        n2.kind->Sequence_0@[0].kind->Text_0@ == n1.kind->Text_0@,
    ensures
        spec_decode_sov_text(n1) == Result::<SpecSoVText, SpecErr>::Ok(
            SpecSoVText::One(n1.kind->Text_0@),
        ),
        spec_decode_sov_text(n2) == Result::<SpecSoVText, SpecErr>::Ok(
            SpecSoVText::Many(seq![n1.kind->Text_0@]),
        ),
        spec_decode_sov_text(n1) != spec_decode_sov_text(n2),
        spec_expand(SpecSoVText::One(n1.kind->Text_0@)) == spec_expand(
            SpecSoVText::Many(seq![n1.kind->Text_0@]),
        ),
{
    reveal_with_fuel(spec_resolve, 3);
    reveal_with_fuel(spec_decode_text_items, 3);
    assert(spec_sov_text_shapes().drop_first() =~= seq![SpecShape::SequenceShape]);
    let items = n2.kind->Sequence_0@;
    assert(items.drop_first() =~= Seq::<Node>::empty());
    assert(spec_decode_text_items(items, 0) == Result::<Seq<Seq<char>>, SpecErr>::Ok(
        seq![n1.kind->Text_0@],
    )) by {
        assert(seq![items[0].kind->Text_0@] + Seq::<Seq<char>>::empty() =~= seq![
            n1.kind->Text_0@,
        ]);
    }
}

} // verus!
