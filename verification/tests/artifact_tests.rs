use forge::artifact::{ArtifactKind, ArtifactName, GenerationRequest};
use forge::error::ForgeError;
use forge::suggest::closest_match;

// ArtifactName validation

#[test]
fn valid_simple_name() {
    assert!(ArtifactName::parse("products").is_ok())
}

#[test]
fn valid_kebab_name() {
    assert!(ArtifactName::parse("product-inventory").is_ok())
}

#[test]
fn valid_underscore_name() {
    assert!(ArtifactName::parse("product_inventory").is_ok())
}

#[test]
fn rejects_empty_name() {
    let err = ArtifactName::parse("").unwrap_err();
    assert!(
        err.message().contains("empty"),
        "error should mention 'empty', got: {}",
        err.message()
    )
}

#[test]
fn rejects_name_with_space() {
    let err = ArtifactName::parse("product inventory").unwrap_err();
    assert!(
        err.message().contains("spaces"),
        "error should mention spaces, got: {}",
        err.message()
    )
}

#[test]
fn rejects_name_starting_with_digit() {
    assert!(ArtifactName::parse("1product").is_err())
}

#[test]
fn rejects_name_with_special_chars() {
    assert!(ArtifactName::parse("product!inventory").is_err());
    assert!(ArtifactName::parse("product@variant").is_err());
}

#[test]
fn pascal_case_is_correct() {
    let name = ArtifactName::parse("product-inventory").unwrap();
    assert_eq!(name.pascal, "ProductInventory");
}

#[test]
fn camel_case_is_correct() {
    let name = ArtifactName::parse("product-inventory").unwrap();
    assert_eq!(name.camel, "productInventory");
}

#[test]
fn kebab_case_is_correct() {
    let name = ArtifactName::parse("ProductInventory").unwrap();
    assert_eq!(name.kebab, "product-inventory");
}

// ArtifactKind resolution

#[test]
fn resolves_full_names() {
    assert_eq!("service".parse::<ArtifactKind>(), Ok(ArtifactKind::Service));
    assert_eq!("controller".parse::<ArtifactKind>(), Ok(ArtifactKind::Controller));
}

#[test]
fn resolves_aliases() {
    assert_eq!("s".parse::<ArtifactKind>(), Ok(ArtifactKind::Service));
    assert_eq!("co".parse::<ArtifactKind>(), Ok(ArtifactKind::Controller));
    assert_eq!("mo".parse::<ArtifactKind>(), Ok(ArtifactKind::Module));
}

#[test]
fn resolution_is_case_insensitive() {
    assert_eq!("SERVICE".parse::<ArtifactKind>(), Ok(ArtifactKind::Service));
    assert_eq!("Module".parse::<ArtifactKind>(), Ok(ArtifactKind::Module));
}

#[test]
fn unknown_artifact_returns_none() {
    assert!("foobar".parse::<ArtifactKind>().is_err());
}

// Suggestion engine

#[test]
fn suggests_closest_match() {
    let candidates = ArtifactKind::all_names();

    assert_eq!(closest_match("servce", candidates), Some("service"));
    assert_eq!(closest_match("moduel", candidates), Some("module"));
    assert_eq!(closest_match("contorller", candidates), Some("controller"));
}

#[test]
fn no_suggestion_for_garbage_input() {
    let candidates = ArtifactKind::all_names();
    assert_eq!(closest_match("xyzqrs", candidates), None);
}

// Further cases

const ALL_KINDS: [ArtifactKind; 16] = [
    ArtifactKind::Module,
    ArtifactKind::Service,
    ArtifactKind::Controller,
    ArtifactKind::Class,
    ArtifactKind::Dto,
    ArtifactKind::Guard,
    ArtifactKind::Interceptor,
    ArtifactKind::Middleware,
    ArtifactKind::Pipe,
    ArtifactKind::Decorator,
    ArtifactKind::Strategy,
    ArtifactKind::Interface,
    ArtifactKind::Filter,
    ArtifactKind::Config,
    ArtifactKind::Resolver,
    ArtifactKind::Entity,
];

#[test]
fn every_listed_name_parses() {
    for name in ArtifactKind::all_names() {
        assert!(ArtifactKind::from_str(name).is_some(), "{name} should parse");
    }
    assert_eq!(ArtifactKind::all_names().len(), 29);
}

#[test]
fn template_names_round_trip_and_are_non_empty() {
    for kind in ALL_KINDS {
        let name = kind.template_name();
        assert!(!name.is_empty());
        assert_eq!(ArtifactKind::from_str(name), Some(kind));
    }
}

#[test]
fn readme_aliases_resolve() {
    let pairs = [
        ("mo", ArtifactKind::Module),
        ("cl", ArtifactKind::Class),
        ("gu", ArtifactKind::Guard),
        ("itc", ArtifactKind::Interceptor),
        ("mi", ArtifactKind::Middleware),
        ("pi", ArtifactKind::Pipe),
        ("d", ArtifactKind::Decorator),
        ("itf", ArtifactKind::Interface),
        ("f", ArtifactKind::Filter),
        ("r", ArtifactKind::Resolver),
        ("e", ArtifactKind::Entity),
        ("DTO", ArtifactKind::Dto),
        ("Strategy", ArtifactKind::Strategy),
        ("CONFIG", ArtifactKind::Config),
    ];
    for (alias, kind) in pairs {
        assert_eq!(ArtifactKind::from_str(alias), Some(kind), "{alias}");
    }
    assert_eq!(ArtifactKind::from_str("m"), None);
    assert_eq!(ArtifactKind::from_str(""), None);
}

#[test]
fn name_variants_follow_readme_example() {
    let name = ArtifactName::parse("product-category").unwrap();
    assert_eq!(name.raw, "product-category");
    assert_eq!(name.pascal, "ProductCategory");
    assert_eq!(name.camel, "productCategory");
    assert_eq!(name.snake, "product_category");
    assert_eq!(name.kebab, "product-category");
}

#[test]
fn conventional_names_have_well_shaped_variants() {
    for raw in ["a", "Z9", "x_y-z", "XMLHttpRequest", "snake__case", "kebab--case_", "mixed-Up_Word9"] {
        let name = ArtifactName::parse(raw).expect("conventional name should parse");
        assert_eq!(name.raw, raw);
        assert!(name.pascal.chars().next().unwrap().is_ascii_uppercase(), "{}", name.pascal);
        assert!(name.camel.chars().next().unwrap().is_ascii_lowercase(), "{}", name.camel);
        assert!(!name.kebab.contains('_'), "{}", name.kebab);
        assert!(!name.snake.contains('-'), "{}", name.snake);
    }
}

#[test]
fn rejection_reasons_are_exact() {
    let reason = |raw: &str| match ArtifactName::parse(raw) {
        Err(ForgeError::InvalidName { name, reason }) => {
            assert_eq!(name, raw);
            reason
        }
        other => panic!("expected InvalidName for {raw:?}, got {other:?}"),
    };
    assert_eq!(reason(""), "name cannot be empty");
    assert_eq!(reason("a b"), "name cannot contain spaces: use hyphens instead.");
    assert_eq!(reason("9lives"), "name must start with a letter");
    assert_eq!(reason("-dash"), "name must start with a letter");
    assert_eq!(
        reason("a.b!c"),
        "name contains invalid '.' - only letters, digits, underscores, and hyphens are allowed."
    );
    assert_eq!(reason(&"a".repeat(129)), "name is too long (maximum 128 characters)");
    // the limit counts bytes: 64 two-byte letters make 128 bytes, 65 make 130
    assert!(ArtifactName::parse(&"é".repeat(64)).is_ok());
    assert_eq!(reason(&"é".repeat(65)), "name is too long (maximum 128 characters)");
    assert!(ArtifactName::parse(&"a".repeat(128)).is_ok());
}

#[test]
fn unicode_letters_are_accepted() {
    let name = ArtifactName::parse("élan").expect("unicode letters are allowed");
    assert_eq!(name.raw, "élan");
    assert!(ArtifactName::parse("日本").is_ok());
}

#[test]
fn invalid_name_message_names_the_input() {
    let err = ArtifactName::parse("bad name").unwrap_err();
    assert_eq!(
        err.message(),
        "Invalid artifact name 'bad name': name cannot contain spaces: use hyphens instead."
    );
}

#[test]
fn forge_error_messages() {
    let cases = [
        (
            ForgeError::UnsupportedArtifact { input: "x".into(), suggestion: "try y".into() },
            "Artifact type 'x' is not supported\n try y",
        ),
        (ForgeError::FileAlreadyExists { path: "/a".into() }, "File already exists at '/a'\n Hint: use --force to overwrite"),
        (
            ForgeError::DirectoryCreation { path: "/a".into(), source: "denied".into() },
            "Failed to create directory '/a': denied",
        ),
        (ForgeError::FileWrite { path: "/a".into(), source: "full".into() }, "Failed to read '/a': full"),
        (
            ForgeError::TemplateRender { name: "service".into(), reason: "oops".into() },
            "Template 'service' failed to render: oops",
        ),
        (ForgeError::TemplateNotFound { name: "t".into() }, "Template 't' not found"),
        (ForgeError::ConfigParse("bad".into()), "Config error: bad"),
    ];
    for (err, text) in cases {
        assert_eq!(err.message(), text);
    }
}

#[test]
fn exact_match_is_suggested_first() {
    let candidates = ArtifactKind::all_names();
    assert_eq!(closest_match("Pipe", candidates), Some("pipe"));
    assert_eq!(closest_match("S", candidates), Some("s"));
}

#[test]
fn suggestion_distance_limit_is_three() {
    assert_eq!(closest_match("kitten", &["sitting"]), Some("sitting"));
    assert_eq!(closest_match("kitten", &["sittingx"]), None);
    // the first of two equally close candidates wins
    assert_eq!(closest_match("ab", &["xb", "ay"]), Some("xb"));
    assert_eq!(closest_match("ab", &[]), None);
}

#[test]
fn generation_request_holds_its_fields() {
    let request = GenerationRequest {
        kind: ArtifactKind::Guard,
        name: ArtifactName::new_unchecked("auth"),
        output_path: "/out".to_string(),
        flat: true,
        dry_run: false,
        generate_spec: true,
    };
    assert_eq!(request.kind, ArtifactKind::Guard);
    assert_eq!(request.name.pascal, "Auth");
}
