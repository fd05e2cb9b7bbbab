//! Whole `forge generate` runs through the library: arguments and
//! configuration into a request, then generation over an in-memory file
//! system with stand-in templates.
use forge::artifact::ArtifactKind;
use forge::cli::{classify_error, extract_hint, prepare_request, ErrorKind, GenerateArgs, RequestError};
use forge::config::ForgeJsonFile;
use forge::error::{ForgeError, ForgeResult};
use forge::generator::{FileSystem, GenerationOutput, Generator};
use forge::output::{tree_groups, file_name_of};
use forge::template::TemplateEngine;
use std::collections::HashMap;
use std::sync::{Arc, Mutex};

#[derive(Clone, Default)]
struct MemoryFs {
    files: Arc<Mutex<HashMap<String, String>>>,
}

impl MemoryFs {
    fn written(&self) -> HashMap<String, String> {
        self.files.lock().unwrap().clone()
    }
}

impl FileSystem for MemoryFs {
    fn create_dir_all(&self, _path: &str) -> ForgeResult<()> {
        Ok(())
    }

    fn write_file(&self, path: &str, contents: &str) -> ForgeResult<()> {
        self.files.lock().unwrap().insert(path.to_string(), contents.to_string());
        Ok(())
    }

    fn file_exists(&self, path: &str) -> bool {
        self.files.lock().unwrap().contains_key(path)
    }

    fn read_file(&self, path: &str) -> ForgeResult<String> {
        self.files
            .lock()
            .unwrap()
            .get(path)
            .cloned()
            .ok_or_else(|| ForgeError::TemplateNotFound { name: path.to_string() })
    }
}

fn templates() -> Vec<(String, Vec<u8>)> {
    let t = |p: &str, s: &str| (p.to_string(), s.as_bytes().to_vec());
    vec![
        t("service/service.ts.tera", "@Injectable()\nexport class {{ name.pascal }}Service {}\n"),
        t("service/service.spec.ts.tera", "describe('{{ name.pascal }}Service', () => {});\n"),
        t("module/module.ts.tera", "@Module({})\nexport class {{ name.pascal }}Module {}\n"),
        t(
            "controller/controller.ts.tera",
            "@Controller('{{ name.kebab }}')\nexport class {{ name.pascal }}Controller {}\n",
        ),
        t("entity/entity.ts.tera", "@Entity()\nexport class {{ name.pascal }} {}\n"),
    ]
}

const ROOT: &str = "/work/project";

fn args(artifact: &str, name: &str) -> GenerateArgs {
    GenerateArgs {
        artifact: artifact.to_string(),
        name: name.to_string(),
        flat: None,
        dry_run: false,
        path: None,
        spec: None,
    }
}

/// Runs `forge generate` with these arguments and configuration file.
fn run(fs: &MemoryFs, a: &GenerateArgs, file: Option<&ForgeJsonFile>) -> Result<GenerationOutput, String> {
    let request = match prepare_request(a, ROOT, file) {
        Ok(r) => r,
        Err(RequestError::UnknownArtifact { input, suggestion }) => {
            return Err(format!(
                "Unknown artifact type '{}'\n. {}",
                input,
                match suggestion {
                    Some(s) => format!("Did you mean '{s}'?"),
                    None => "Run forge generate --help to see all supported artifact types.".to_string(),
                }
            ))
        }
        Err(RequestError::InvalidName(e)) => return Err(e.message()),
        Err(RequestError::Config(e)) => return Err(format!("Config error: {}", e.message())),
    };
    let generator = Generator::new(fs.clone(), TemplateEngine::new(templates())).map_err(|e| e.message())?;
    generator.generate(&request).map_err(|e| e.message())
}

fn paths(out: &GenerationOutput) -> Vec<String> {
    out.files.iter().map(|f| f.path.clone()).collect()
}

#[test]
fn generate_rejects_unknown_artifact() {
    let err = run(&MemoryFs::default(), &args("foobar", "products"), None).unwrap_err();
    assert!(err.contains("Unknown artifact"));
    assert_eq!(classify_error(&err), ErrorKind::UserInput);
}

#[test]
fn generate_suggests_correction_for_typo() {
    let err = run(&MemoryFs::default(), &args("servce", "products"), None).unwrap_err();
    assert!(err.contains("service"));
}

#[test]
fn generate_rejects_name_with_space() {
    let err = run(&MemoryFs::default(), &args("service", "my service"), None).unwrap_err();
    assert!(err.contains("spaces"));
}

#[test]
fn generate_rejects_name_starting_with_digit() {
    let err = run(&MemoryFs::default(), &args("service", "3products"), None).unwrap_err();
    assert!(err.contains("letter"));
}

#[test]
fn error_includes_hint() {
    let err = run(&MemoryFs::default(), &args("foobar", "products"), None).unwrap_err();
    assert_eq!(
        extract_hint(&err),
        Some("Run `forge generate --help` to see all supported artifact types.")
    );
}

#[test]
fn dry_run_creates_no_files() {
    let fs = MemoryFs::default();
    let mut a = args("service", "products");
    a.dry_run = true;
    let out = run(&fs, &a, None).unwrap();
    assert!(out.dry_run);
    assert!(fs.written().is_empty(), "dry run must not write any files");
}

#[test]
fn dry_run_shows_files_that_would_be_created() {
    let mut a = args("service", "products");
    a.dry_run = true;
    let out = run(&MemoryFs::default(), &a, None).unwrap();
    assert!(paths(&out).contains(&format!("{ROOT}/src/products/products.service.ts")));
    assert!(out.files.iter().all(|f| !f.skipped));
}

#[test]
fn generates_service_files() {
    let fs = MemoryFs::default();
    run(&fs, &args("service", "products"), None).unwrap();
    let written = fs.written();
    let contents = &written[&format!("{ROOT}/src/products/products.service.ts")];
    assert!(contents.contains("ProductsService"));
    assert!(contents.contains("@Injectable("));
}

#[test]
fn generate_module_files() {
    let fs = MemoryFs::default();
    run(&fs, &args("module", "auth"), None).unwrap();
    let written = fs.written();
    let contents = &written[&format!("{ROOT}/src/auth/auth.module.ts")];
    assert!(contents.contains("AuthModule"), "should contain class name");
    assert!(contents.contains("@Module("), "should contain decorator");
}

#[test]
fn generates_controller_with_correct_route() {
    let fs = MemoryFs::default();
    run(&fs, &args("controller", "products"), None).unwrap();
    let written = fs.written();
    let contents = &written[&format!("{ROOT}/src/products/products.controller.ts")];
    assert!(contents.contains("ProductsController"));
    assert!(contents.contains("@Controller('products')"));
}

#[test]
fn generate_spec_file_by_default() {
    let fs = MemoryFs::default();
    run(&fs, &args("service", "products"), None).unwrap();
    assert!(fs.written().contains_key(&format!("{ROOT}/src/products/products.service.spec.ts")));
}

#[test]
fn no_spec_flag_suppresses_spec_file() {
    let fs = MemoryFs::default();
    let mut a = args("service", "products");
    a.spec = Some(false);
    run(&fs, &a, None).unwrap();
    assert!(!fs.written().keys().any(|k| k.ends_with("products.service.spec.ts")));
    assert!(fs.written().contains_key(&format!("{ROOT}/src/products/products.service.ts")));
}

#[test]
fn cli_integration_flat_flag_skips_subdirectory() {
    let fs = MemoryFs::default();
    let mut a = args("service", "products");
    a.flat = Some(true);
    run(&fs, &a, None).unwrap();
    let written = fs.written();
    assert!(written.contains_key(&format!("{ROOT}/src/products.service.ts")));
    assert!(!written.contains_key(&format!("{ROOT}/src/products/products.service.ts")));
}

#[test]
fn artifact_aliases_work() {
    let mut a = args("s", "products");
    a.dry_run = true;
    let out = run(&MemoryFs::default(), &a, None).unwrap();
    assert!(paths(&out).iter().any(|p| p.contains("service")));

    let mut a = args("mo", "auth");
    a.dry_run = true;
    let out = run(&MemoryFs::default(), &a, None).unwrap();
    assert!(paths(&out).iter().any(|p| p.contains("module")));
}

#[test]
fn multiword_kebab_name_generates_correct_files() {
    let fs = MemoryFs::default();
    run(&fs, &args("service", "product-category"), None).unwrap();
    let written = fs.written();
    let contents = &written[&format!("{ROOT}/src/product-category/product-category.service.ts")];
    assert!(contents.contains("ProductCategoryService"), "should use PascalCase class name");
    assert!(!contents.contains("product-categoryService"), "no kebab casing in class name");
}

#[test]
fn respects_source_root_from_forge_json() {
    let file = ForgeJsonFile {
        source_root: Some("app".to_string()),
        generate_spec: Some(false),
        ..Default::default()
    };
    let fs = MemoryFs::default();
    run(&fs, &args("service", "products"), Some(&file)).unwrap();
    assert!(fs.written().contains_key(&format!("{ROOT}/app/products/products.service.ts")));
    assert!(!fs.written().keys().any(|k| k.contains("/src/")));
}

#[test]
fn respects_path_override_from_forge_json() {
    let file = ForgeJsonFile {
        generate_spec: Some(false),
        paths: Some(vec![("entity".to_string(), "src/database/entities".to_string())]),
        ..Default::default()
    };
    let fs = MemoryFs::default();
    let out = run(&fs, &args("entity", "product"), Some(&file)).unwrap();
    let expected = format!("{ROOT}/src/database/entities/product/product.entity.ts");
    assert_eq!(paths(&out), vec![expected.clone()]);
    assert!(fs.written().contains_key(&expected));
}

#[test]
fn cli_spec_flag_overrides_forge_json() {
    let file = ForgeJsonFile { generate_spec: Some(false), ..Default::default() };
    let fs = MemoryFs::default();
    let mut a = args("service", "products");
    a.spec = Some(true);
    run(&fs, &a, Some(&file)).unwrap();
    assert!(fs.written().contains_key(&format!("{ROOT}/src/products/products.service.spec.ts")));
}

#[test]
fn second_generate_skips_existing_files() {
    let fs = MemoryFs::default();
    let first = run(&fs, &args("service", "products"), None).unwrap();
    assert!(first.files.iter().all(|f| !f.skipped));
    let second = run(&fs, &args("service", "products"), None).unwrap();
    assert_eq!(second.files.len(), first.files.len());
    assert!(second.files.iter().all(|f| f.skipped));
}

#[test]
fn displayed_paths_use_forward_slashes() {
    let mut a = args("service", "products");
    a.dry_run = true;
    let out = run(&MemoryFs::default(), &a, None).unwrap();
    let groups = tree_groups(&out.files);
    let names: Vec<String> = out.files.iter().filter_map(|f| file_name_of(&f.path)).collect();
    assert!(names.contains(&"products.service.ts".to_string()));
    assert!(groups.iter().all(|g| !g.directory.contains('\\')));
    assert_eq!(groups.len(), 1);
    assert_eq!(groups[0].directory, format!("{ROOT}/src/products"));
}

#[test]
fn kind_resolution_is_what_the_request_names() {
    let req = prepare_request(&args("CO", "auth"), ROOT, None).unwrap();
    assert_eq!(req.kind, ArtifactKind::Controller);
}
