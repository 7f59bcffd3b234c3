use devcontainer::dockerfile::{
    ensure_dockerfile_has_final_stage_name, extract_dockerfile, find_base_image,
    find_user_statement, supports_build_contexts, BuildContextSupport,
};

fn pairs(entries: &[(&str, &str)]) -> Vec<(String, String)> {
    entries
        .iter()
        .map(|(k, v)| (k.to_string(), v.to_string()))
        .collect()
}

#[test]
fn ensures_final_stage_names_without_rewriting_named_stages() {
    let dockerfile = r#"
FROM ubuntu:latest as base

RUN some command

FROM base as final

COPY src dest
"#;

    let result =
        ensure_dockerfile_has_final_stage_name(dockerfile, "placeholder").expect("stage name");

    assert_eq!(result.last_stage_name, "final");
    assert_eq!(result.modified_dockerfile, None);
}

#[test]
fn inserts_final_stage_names_before_comments_and_preserves_spacing() {
    let dockerfile = r#"
FROM ubuntu:latest as base

RUN some command

 	FROM  --platform=my-platform 	base   # deliberately includes: as something here

COPY src dest
"#;

    let result =
        ensure_dockerfile_has_final_stage_name(dockerfile, "placeholder").expect("stage name");

    assert_eq!(result.last_stage_name, "placeholder");
    assert_eq!(
        result.modified_dockerfile.as_deref(),
        Some(
            r#"
FROM ubuntu:latest as base

RUN some command

 	FROM  --platform=my-platform 	base AS placeholder   # deliberately includes: as something here

COPY src dest
"#
        )
    );
}

#[test]
fn rejects_dockerfiles_without_from_instructions() {
    let error = ensure_dockerfile_has_final_stage_name("RUN some command\n", "placeholder")
        .expect_err("expected parse error");

    assert!(error.contains("Dockerfile contains no FROM instructions"));
}

#[test]
fn extracts_env_forms_and_lowercase_instructions() {
    let dockerfile = "from E\nenv A=B\nenv C = D\nenv E F\narg G\nuser H\n";
    let extracted = extract_dockerfile(dockerfile);

    assert_eq!(extracted.stages.len(), 1);
    let stage = &extracted.stages[0];
    assert_eq!(stage.from.image, "E");
    assert_eq!(stage.instructions[0].instruction, "ENV");
    assert_eq!(stage.instructions[0].name, "A");
    assert_eq!(stage.instructions[0].value.as_deref(), Some("B"));
    assert_eq!(stage.instructions[1].name, "C");
    assert_eq!(stage.instructions[1].value.as_deref(), Some("D"));
    assert_eq!(stage.instructions[2].name, "E");
    assert_eq!(stage.instructions[2].value.as_deref(), Some("F"));
    assert_eq!(stage.instructions[3].instruction, "ARG");
    assert_eq!(stage.instructions[3].name, "G");
    assert_eq!(stage.instructions[4].instruction, "USER");
    assert_eq!(stage.instructions[4].name, "H");
}

#[test]
fn resolves_base_images_from_args_quotes_aliases_and_expressions() {
    let extracted = extract_dockerfile(
        r#"
ARG BASE_IMAGE="image2"
FROM "${BASE_IMAGE}"
"#,
    );
    assert_eq!(
        find_base_image(&extracted, &pairs(&[]), None, &pairs(&[])).as_deref(),
        Some("image2")
    );
    assert_eq!(
        find_base_image(
            &extracted,
            &pairs(&[("BASE_IMAGE", "image3")]),
            None,
            &pairs(&[]),
        )
        .as_deref(),
        Some("image3")
    );

    let multistage = extract_dockerfile(
        r#"
FROM image1 as stage1
FROM stage3 as stage2
FROM image3 as stage3
FROM image4 as stage4
"#,
    );
    assert_eq!(
        find_base_image(&multistage, &pairs(&[]), Some("stage2"), &pairs(&[])).as_deref(),
        Some("image3")
    );

    let positive_expression = extract_dockerfile(
        r#"
ARG cloud
FROM ${cloud:+"mcr.microsoft.com/"}azure-cli:latest"
"#,
    );
    assert_eq!(
        find_base_image(
            &positive_expression,
            &pairs(&[("cloud", "true")]),
            None,
            &pairs(&[]),
        )
        .as_deref(),
        Some("mcr.microsoft.com/azure-cli:latest")
    );
    assert_eq!(
        find_base_image(&positive_expression, &pairs(&[]), None, &pairs(&[])).as_deref(),
        Some("azure-cli:latest")
    );

    let negative_expression = extract_dockerfile(
        r#"
ARG cloud
FROM "${cloud:-"mcr.microsoft.com/"}azure-cli:latest"
"#,
    );
    assert_eq!(
        find_base_image(
            &negative_expression,
            &pairs(&[("cloud", "ghcr.io/")]),
            None,
            &pairs(&[]),
        )
        .as_deref(),
        Some("ghcr.io/azure-cli:latest")
    );
    assert_eq!(
        find_base_image(&negative_expression, &pairs(&[]), None, &pairs(&[])).as_deref(),
        Some("mcr.microsoft.com/azure-cli:latest")
    );
}

#[test]
fn missing_targets_do_not_fall_back_to_final_stage() {
    let dockerfile = extract_dockerfile(
        r#"
FROM debian AS base
USER base-user

FROM ubuntu AS final
USER final-user
"#,
    );

    assert_eq!(
        find_base_image(&dockerfile, &pairs(&[]), Some("missing"), &pairs(&[])),
        None
    );
    assert_eq!(
        find_user_statement(&dockerfile, &pairs(&[]), &pairs(&[]), &pairs(&[]), Some("missing")),
        None
    );
}

#[test]
fn resolves_user_statements_with_arg_env_and_stage_precedence() {
    let arg_overwritten = extract_dockerfile(
        r#"
FROM debian
ARG IMAGE_USER=user2
USER $IMAGE_USER
"#,
    );
    assert_eq!(
        find_user_statement(
            &arg_overwritten,
            &pairs(&[("IMAGE_USER", "user3")]),
            &pairs(&[]),
            &pairs(&[]),
            None,
        )
        .as_deref(),
        Some("user3")
    );

    let env_after_arg = extract_dockerfile(
        r#"
FROM debian
ARG USERNAME=user1
ENV USERNAME=user2
USER ${USERNAME}
"#,
    );
    assert_eq!(
        find_user_statement(&env_after_arg, &pairs(&[]), &pairs(&[]), &pairs(&[]), None)
            .as_deref(),
        Some("user2")
    );

    let inherited_env_not_arg = extract_dockerfile(
        r#"
FROM debian as one
ENV USERNAME=user1
ARG USERNAME=user2

FROM one as two
USER ${USERNAME}
"#,
    );
    assert_eq!(
        find_user_statement(
            &inherited_env_not_arg,
            &pairs(&[]),
            &pairs(&[]),
            &pairs(&[]),
            None,
        )
        .as_deref(),
        Some("user1")
    );

    let base_env = extract_dockerfile(
        r#"
FROM mybase
USER ${USERNAME}
"#,
    );
    assert_eq!(
        find_user_statement(
            &base_env,
            &pairs(&[]),
            &pairs(&[("USERNAME", "user1")]),
            &pairs(&[]),
            None,
        )
        .as_deref(),
        Some("user1")
    );
}

#[test]
fn detects_build_context_support_from_syntax_directives() {
    assert_eq!(
        supports_build_contexts(&extract_dockerfile("FROM debian")),
        BuildContextSupport::Unsupported
    );
    assert_eq!(
        supports_build_contexts(&extract_dockerfile(
            "# syntax=docker/dockerfile:1.4\nFROM debian"
        )),
        BuildContextSupport::Supported
    );
    assert_eq!(
        supports_build_contexts(&extract_dockerfile(
            "# syntax=docker.io/docker/dockerfile:1.2\nFROM debian"
        )),
        BuildContextSupport::Unsupported
    );
    assert_eq!(
        supports_build_contexts(&extract_dockerfile(
            "# syntax=docker.io/docker/dockerfile:latest\nFROM debian"
        )),
        BuildContextSupport::Supported
    );
    assert_eq!(
        supports_build_contexts(&extract_dockerfile(
            "# syntax=mycompany/myimage:1.4\nFROM debian"
        )),
        BuildContextSupport::Unknown
    );
}

#[test]
fn image_names_without_references_are_kept() {
    let dockerfile = extract_dockerfile("ARG X=1\nFROM cost-$\n");
    assert_eq!(find_base_image(&dockerfile, &pairs(&[("X", "2")]), None, &pairs(&[])).as_deref(), Some("cost-$"));
    let unterminated = extract_dockerfile("ARG X=1\nFROM img-${X\n");
    assert_eq!(find_base_image(&unterminated, &pairs(&[]), None, &pairs(&[])).as_deref(), Some("img-${X"));
}
