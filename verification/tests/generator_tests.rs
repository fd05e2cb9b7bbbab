use forge::artifact::{ArtifactKind, ArtifactName, GenerationRequest};
use forge::error::{ForgeError, ForgeResult};
use forge::generator::{file_action, resolve_output_path, FileAction, FileSystem, Generator};
use forge::template::{TemplateEngine, TemplateEngineError};
use std::collections::HashMap;
use std::sync::{Arc, Mutex};

/// In-memory file system for tests
#[derive(Clone, Default)]
struct InMemoryFileSystem {
    files: Arc<Mutex<HashMap<String, String>>>,
}

impl InMemoryFileSystem {
    fn new() -> Self {
        Self::default()
    }

    fn written_files(&self) -> HashMap<String, String> {
        self.files.lock().unwrap().clone()
    }
}

impl FileSystem for InMemoryFileSystem {
    fn create_dir_all(&self, _path: &str) -> ForgeResult<()> {
        Ok(())
    }

    fn write_file(&self, path: &str, contents: &str) -> ForgeResult<()> {
        self.files.lock().unwrap().insert(path.to_string(), contents.to_string());
        Ok(())
    }

    fn file_exists(&self, path: &str) -> bool {
        self.files.lock().unwrap().contains_key(path)
    }

    fn read_file(&self, path: &str) -> ForgeResult<String> {
        self.files
            .lock()
            .unwrap()
            .get(path)
            .cloned()
            .ok_or_else(|| ForgeError::TemplateNotFound { name: path.to_string() })
    }
}

/// Stand-ins for the service and controller templates.
fn fixture_templates() -> Vec<(String, Vec<u8>)> {
    vec![
        (
            "service/service.ts.tera".to_string(),
            b"@Injectable()\nexport class {{ name.pascal }}Service {}\n".to_vec(),
        ),
        (
            "service/service.spec.ts.tera".to_string(),
            b"describe('{{ name.pascal }}Service', () => {});\n".to_vec(),
        ),
        (
            "controller/controller.ts.tera".to_string(),
            b"@Controller('{{ name.kebab }}')\nexport class {{ name.pascal }}Controller {}\n".to_vec(),
        ),
        (
            "controller/controller.spec.ts.tera".to_string(),
            b"describe('{{ name.pascal }}Controller', () => {});\n".to_vec(),
        ),
    ]
}

fn make_request(kind: ArtifactKind, name: &str) -> GenerationRequest {
    GenerationRequest {
        kind,
        name: ArtifactName::new_unchecked(name),
        output_path: "/output".to_string(),
        flat: false,
        dry_run: false,
        generate_spec: false,
    }
}

fn new_generator(fs: InMemoryFileSystem) -> Generator<InMemoryFileSystem> {
    Generator::new(fs, TemplateEngine::new(fixture_templates())).expect("generator should initialize")
}

fn make_generator() -> Generator<InMemoryFileSystem> {
    new_generator(InMemoryFileSystem::new())
}

#[test]
fn generates_service_files_at_correct_paths() {
    let generator = make_generator();
    let req = make_request(ArtifactKind::Service, "products");
    let output = generator.generate(&req).expect("should generate");

    assert!(!output.files.is_empty());
    let paths: Vec<String> = output.files.iter().map(|f| f.path.clone()).collect();

    // Should be nested in a directory named after the artifact
    assert!(
        paths.iter().any(|p| p.contains("products") && p.contains("service")),
        "expected a products service file, got: {:?}",
        paths
    );
}

#[test]
fn generator_flat_flag_skips_subdirectory() {
    let fs = InMemoryFileSystem::new();
    let generator = new_generator(fs.clone());
    let mut req = make_request(ArtifactKind::Service, "products");
    req.flat = true;

    generator.generate(&req).expect("should generate flat");

    let files = fs.written_files();
    for path in files.keys() {
        let components: Vec<_> = std::path::Path::new(path).components().collect();
        let has_double_products = components.windows(2).any(|w| {
            w[0].as_os_str() == "products" && w[1].as_os_str().to_string_lossy().starts_with("products")
        });
        assert!(!has_double_products, "--flat should not create subdirectory, path was: {}", path)
    }
}

#[test]
fn dry_run_writes_no_files() {
    let fs = InMemoryFileSystem::new();
    let generator = new_generator(fs.clone());
    let mut req = make_request(ArtifactKind::Service, "products");
    req.dry_run = true;

    let output = generator.generate(&req).expect("should run");

    assert!(output.dry_run);
    assert!(fs.written_files().is_empty(), "dry run should not write any files");
}

#[test]
fn skips_existing_files() {
    let fs = InMemoryFileSystem::new();
    let generator = new_generator(fs.clone());
    let req = make_request(ArtifactKind::Service, "products");

    // First run
    generator.generate(&req).expect("first run");
    let written_count = fs.written_files().len();

    // Second run
    let output = generator.generate(&req).expect("second run");

    assert!(output.files.iter().all(|f| f.skipped), "all files should be skipped on second run");
    assert_eq!(fs.written_files().len(), written_count, "should not write any new files on second run");
}

#[test]
fn controller_product_inventory_defines_product_controller() {
    let fs = InMemoryFileSystem::new();
    let generator = new_generator(fs.clone());

    let mut req = make_request(ArtifactKind::Controller, "product-inventory");
    req.generate_spec = true;

    generator.generate(&req).expect("controller generation should succeed");

    let has_class = fs.written_files().values().any(|src| src.contains("class ProductInventoryController"));
    assert!(
        has_class,
        "expected ProductInventoryController in written files, paths: {:?}",
        fs.written_files().keys().collect::<Vec<_>>()
    );
}

// Further cases

#[test]
fn output_paths_are_nested_or_flat() {
    let mut req = make_request(ArtifactKind::Service, "ProductCategory");
    assert_eq!(resolve_output_path(&req, "product-category.service.ts"), "/output/product-category/product-category.service.ts");
    req.flat = true;
    assert_eq!(resolve_output_path(&req, "product-category.service.ts"), "/output/product-category.service.ts");
}

#[test]
fn generated_files_land_at_the_documented_paths() {
    let fs = InMemoryFileSystem::new();
    let generator = new_generator(fs.clone());
    let mut req = make_request(ArtifactKind::Service, "products");
    req.generate_spec = true;
    let output = generator.generate(&req).unwrap();
    let mut paths: Vec<String> = output.files.iter().map(|f| f.path.clone()).collect();
    paths.sort();
    assert_eq!(paths, vec!["/output/products/products.service.spec.ts", "/output/products/products.service.ts"]);
    assert!(output.files.iter().all(|f| !f.skipped));
    let written = fs.written_files();
    assert!(written["/output/products/products.service.ts"].contains("ProductsService"));
}

#[test]
fn file_actions_never_write_in_a_dry_run() {
    assert_eq!(file_action(true, false), FileAction::Skip);
    assert_eq!(file_action(true, true), FileAction::Skip);
    assert_eq!(file_action(false, true), FileAction::Preview);
    assert_eq!(file_action(false, false), FileAction::Write);
}

#[test]
fn engine_failure_becomes_a_render_error() {
    let result = Generator::new(InMemoryFileSystem::new(), Err(TemplateEngineError::Init("broken".to_string())));
    match result {
        Err(ForgeError::TemplateRender { name, reason }) => {
            assert_eq!(name, "engine_init");
            assert_eq!(reason, "Failed to initialize template engine: broken");
        }
        _ => panic!("expected a render error"),
    }
}

#[test]
fn missing_templates_are_reported_for_the_kind() {
    let generator = make_generator();
    let req = make_request(ArtifactKind::Guard, "auth");
    match generator.generate(&req) {
        Err(ForgeError::TemplateRender { name, reason }) => {
            assert_eq!(name, "guard");
            assert_eq!(reason, "No templates found for this artifact type 'guard'");
        }
        other => panic!("expected a render error, got {:?}", other.map(|o| o.files.len())),
    }
}

/// A file system that records every call and refuses to write one path.
#[derive(Clone, Default)]
struct RefusingFileSystem {
    calls: Arc<Mutex<Vec<String>>>,
    refused: String,
}

impl FileSystem for RefusingFileSystem {
    fn create_dir_all(&self, path: &str) -> ForgeResult<()> {
        self.calls.lock().unwrap().push(format!("mkdir {path}"));
        Ok(())
    }

    fn write_file(&self, path: &str, _contents: &str) -> ForgeResult<()> {
        self.calls.lock().unwrap().push(format!("write {path}"));
        if path == self.refused {
            Err(ForgeError::FileWrite { path: path.to_string(), source: "disk full".to_string() })
        } else {
            Ok(())
        }
    }

    fn file_exists(&self, path: &str) -> bool {
        self.calls.lock().unwrap().push(format!("exists {path}"));
        false
    }

    fn read_file(&self, path: &str) -> ForgeResult<String> {
        Err(ForgeError::TemplateNotFound { name: path.to_string() })
    }
}

#[test]
fn file_system_error_is_returned_unchanged_and_ends_the_run() {
    let fs = RefusingFileSystem { refused: "/output/products/products.service.ts".to_string(), ..Default::default() };
    let generator = Generator::new(fs.clone(), TemplateEngine::new(fixture_templates())).unwrap();
    let req = make_request(ArtifactKind::Service, "products");
    match generator.generate(&req) {
        Err(ForgeError::FileWrite { path, source }) => {
            assert_eq!(path, "/output/products/products.service.ts");
            assert_eq!(source, "disk full");
        }
        other => panic!("expected the write error, got {other:?}"),
    }
    let calls = fs.calls.lock().unwrap().clone();
    assert_eq!(
        calls,
        vec![
            "exists /output/products/products.service.ts".to_string(),
            "mkdir /output/products".to_string(),
            "write /output/products/products.service.ts".to_string(),
        ]
    );
}

#[test]
fn dry_run_only_asks_whether_files_exist() {
    let fs = RefusingFileSystem::default();
    let generator = Generator::new(fs.clone(), TemplateEngine::new(fixture_templates())).unwrap();
    let mut req = make_request(ArtifactKind::Service, "products");
    req.dry_run = true;
    let out = generator.generate(&req).unwrap();
    assert_eq!(out.files.len(), 1);
    assert!(!out.files[0].skipped);
    let calls = fs.calls.lock().unwrap().clone();
    assert!(calls.iter().all(|c| c.starts_with("exists ")), "calls: {calls:?}");
}

#[test]
fn name_context_holds_the_variants() {
    let name = ArtifactName::new_unchecked("product-category");
    let ctx = forge::generator::name_context(&name);
    assert_eq!(ctx.name.raw, "product-category");
    assert_eq!(ctx.name.pascal, "ProductCategory");
    assert_eq!(ctx.name.camel, "productCategory");
    assert_eq!(ctx.name.snake, "product_category");
    assert_eq!(ctx.name.kebab, "product-category");
}
