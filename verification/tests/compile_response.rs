use bo::compile::response::{parse_and_validate_with_input_size, response_shape_error, CompileResponse, RawBranch};
use bo::compile::CompileError;

fn raw(title: &str, body: &str, leaves: &[&str]) -> RawBranch {
    RawBranch { title: title.to_string(), body: body.to_string(), leaves: leaves.iter().map(|s| s.to_string()).collect() }
}

fn files() -> Vec<String> {
    vec!["a.md".to_string(), "b.md".to_string(), "c.md".to_string()]
}

fn err_of(r: Result<bo::compile::response::ValidatedPlan, CompileError>) -> String {
    match r {
        Err(CompileError::Validation(m)) => m,
        other => panic!("expected a validation error, got {:?}", other),
    }
}

#[test]
fn valid_response_keeps_distinct_leaves_in_order() {
    let resp = CompileResponse { branches: vec![raw("  Alpha  ", "Body A", &["a.md", "b.md", "a.md"]), raw("Beta", "Body B", &["c.md", "b.md"])] };
    let plan = parse_and_validate_with_input_size(&resp, &vec!["alpha".to_string(), "beta".to_string()], &files(), 100).unwrap();
    assert_eq!(plan.branches.len(), 2);
    assert_eq!(plan.branches[0].title, "Alpha");
    assert_eq!(plan.branches[0].slug, "alpha");
    assert_eq!(plan.branches[0].leaves, vec!["a.md".to_string(), "b.md".to_string()]);
    assert_eq!(plan.leaf_assignments("b.md"), vec!["alpha".to_string(), "beta".to_string()]);
    assert_eq!(plan.leaf_assignments("c.md"), vec!["beta".to_string()]);
    assert!(plan.leaf_assignments("z.md").is_empty());
}

#[test]
fn empty_response_is_valid() {
    let resp = CompileResponse { branches: vec![] };
    let plan = parse_and_validate_with_input_size(&resp, &vec![], &files(), 0).unwrap();
    assert!(plan.branches.is_empty());
}

#[test]
fn each_bad_branch_has_its_message() {
    let slugs = |n: usize| (0..n).map(|i| format!("s{}", i)).collect::<Vec<String>>();
    let one = |b: RawBranch| parse_and_validate_with_input_size(&CompileResponse { branches: vec![b] }, &slugs(1), &files(), 100);
    assert_eq!(err_of(one(raw("  ", "B", &["a.md", "b.md"]))), "invalid compile response: branch #1 has empty title");
    assert_eq!(err_of(one(raw("T", " ", &["a.md", "b.md"]))), "invalid compile response: branch 'T' has empty body");
    assert_eq!(
        err_of(one(raw("T", "B", &["a.md", " "]))),
        "invalid compile response: branch 'T' contains an empty leaf reference"
    );
    assert_eq!(
        err_of(one(raw("T", "B", &["a.md", "z.md"]))),
        "invalid compile response: branch 'T' references unknown leaf 'z.md'"
    );
    assert_eq!(
        err_of(one(raw("T", "B", &["a.md", "a.md"]))),
        "invalid compile response: branch 'T' references 1 leaf; branches must reference at least 2 leaves"
    );
    let r = parse_and_validate_with_input_size(
        &CompileResponse { branches: vec![raw("T", "B", &["a.md", "b.md"])] },
        &vec!["".to_string()],
        &files(),
        100,
    );
    assert_eq!(err_of(r), "invalid compile response: branch 'T' title produces empty file slug");
    let r = parse_and_validate_with_input_size(
        &CompileResponse { branches: vec![raw("T", "B", &["a.md", "b.md"]), raw("t", "B", &["b.md", "c.md"])] },
        &vec!["t".to_string(), "t".to_string()],
        &files(),
        100,
    );
    assert_eq!(
        err_of(r),
        "invalid compile response: duplicate branch slug 't' (from title 't') \u{2014} titles must be distinct"
    );
}

#[test]
fn bodies_may_not_outgrow_their_input() {
    let big = "x".repeat(16385);
    let r = parse_and_validate_with_input_size(
        &CompileResponse { branches: vec![raw("T", &big, &["a.md", "b.md"])] },
        &vec!["t".to_string()],
        &files(),
        10,
    );
    assert_eq!(
        err_of(r),
        "invalid compile response: branch bodies total 16385 bytes, exceeding 16384 byte limit for 10 bytes of input"
    );
    let r = parse_and_validate_with_input_size(
        &CompileResponse { branches: vec![raw("T", &big, &["a.md", "b.md"])] },
        &vec!["t".to_string()],
        &files(),
        3000,
    );
    assert!(r.is_ok());
}

#[test]
fn shape_errors_name_the_parse_error() {
    match response_shape_error("expected value at line 1") {
        CompileError::Validation(m) => assert_eq!(m, "invalid compile response shape: expected value at line 1"),
        other => panic!("unexpected {:?}", other),
    }
}
