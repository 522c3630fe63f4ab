//! The runtime: command tree, dispatch, requests, app names.

use api2cli::runtime::{derive_app_name, DynamicCli, DynamicCliConfig, OutputFormat};
use api2cli::spec::{ApiInfo, ApiSpec, HttpMethod, Operation};

fn make_spec(ops: Vec<Operation>) -> ApiSpec {
    ApiSpec {
        info: ApiInfo {
            title: "Test API".to_string(),
            version: "1.0.0".to_string(),
            description: None,
        },
        servers: vec!["https://api.example.com".to_string()],
        operations: ops,
    }
}

#[test]
fn build_command_flat_no_tags() {
    let spec = make_spec(vec![Operation {
        operation_id: "listItems".to_string(),
        command_name: "list-items".to_string(),
        method: HttpMethod::Get,
        path: "/items".to_string(),
        summary: Some("List items".to_string()),
        description: None,
        parameters: vec![],
        request_body: None,
        tags: vec![],
    }]);

    let config = DynamicCliConfig {
        spec_source: "test".to_string(),
        app_name: "myapi".to_string(),
        base_url_override: None,
        auth_token: None,
        output_format: OutputFormat::Pretty,
    };

    let cli = DynamicCli::from_spec(config, spec);
    let cmd = cli.build_command();

    // Should have a "list-items" subcommand directly.
    assert!(cmd.commands.iter().any(|s| s.name == "list-items"));
}

#[test]
fn derive_name_from_url() {
    assert_eq!(
        derive_app_name("https://petstore.swagger.io/v2/swagger.json"),
        "swagger"
    );
    assert_eq!(
        derive_app_name("https://api.example.com/openapi.yaml"),
        "openapi"
    );
}

#[test]
fn derive_name_from_file() {
    assert_eq!(derive_app_name("/path/to/myapi.json"), "myapi");
    assert_eq!(derive_app_name("spec.yaml"), "spec");
}

#[test]
fn derive_name_fallback() {
    assert_eq!(derive_app_name("https://api.example.com/"), "api");
}

use api2cli::runtime::{BodySource, Invocation};
use api2cli::spec::{ParamIn, Parameter, RequestBody, Schema, SchemaType};

fn op(id: &str, method: HttpMethod, path: &str, tags: &[&str], params: Vec<Parameter>) -> Operation {
    Operation {
        operation_id: id.to_string(),
        command_name: id.to_string(),
        method,
        path: path.to_string(),
        summary: None,
        description: Some(format!("about {id}")),
        parameters: params,
        request_body: None,
        tags: tags.iter().map(|t| t.to_string()).collect(),
    }
}

fn param(name: &str, cli: &str, location: ParamIn) -> Parameter {
    Parameter {
        name: name.to_string(),
        cli_name: cli.to_string(),
        location,
        required: false,
        schema: Schema { schema_type: SchemaType::String, enum_values: None, default: None },
        description: None,
    }
}

fn config() -> DynamicCliConfig {
    DynamicCliConfig {
        spec_source: "s".to_string(),
        app_name: "pets".to_string(),
        base_url_override: None,
        auth_token: None,
        output_format: OutputFormat::Pretty,
    }
}

fn invocation(path: &[&str], values: &[(&str, &str)]) -> Invocation {
    Invocation {
        subcommands: path.iter().map(|s| s.to_string()).collect(),
        values: values.iter().map(|(a, b)| (a.to_string(), b.to_string())).collect(),
        token: None,
        base_url: None,
        output: None,
    }
}

fn petstore() -> DynamicCli {
    let mut spec = make_spec(vec![
        op("list-pets", HttpMethod::Get, "/pet", &["Pet"], vec![]),
        op("get-inventory", HttpMethod::Get, "/store/inventory", &["store", "x"], vec![]),
        op("add-pet", HttpMethod::Post, "/pet", &["Pet"], vec![]),
        op("ping", HttpMethod::Head, "/ping", &[], vec![]),
    ]);
    spec.info.description = Some("The pet store".to_string());
    DynamicCli::from_spec(config(), spec)
}

#[test]
fn build_command_groups_by_first_tag() {
    let tree = petstore().build_command();
    assert_eq!(tree.name, "pets");
    assert_eq!(tree.about, "The pet store");
    assert_eq!(tree.version, "1.0.0");
    assert!(tree.commands.is_empty());
    let names: Vec<&str> = tree.groups.iter().map(|g| g.name.as_str()).collect();
    assert_eq!(names, vec!["pet", "store", "default"]);
    assert_eq!(tree.groups[0].about, "Operations tagged 'Pet'");
    let pet: Vec<&str> = tree.groups[0].commands.iter().map(|c| c.name.as_str()).collect();
    assert_eq!(pet, vec!["list-pets", "add-pet"]);
    assert_eq!(tree.groups[0].commands[1].about, "[POST] about add-pet");
    assert_eq!(tree.groups[2].commands[0].name, "ping");
    let globals: Vec<&str> = tree.global_args.iter().map(|a| a.long.as_str()).collect();
    assert_eq!(globals, vec!["token", "base-url", "output"]);
    assert_eq!(tree.global_args[0].env.as_deref(), Some("API_TOKEN"));
    assert_eq!(tree.global_args[2].default_value, None);
}

#[test]
fn single_tag_is_flat() {
    let spec = make_spec(vec![
        op("a", HttpMethod::Get, "/a", &["only"], vec![]),
        op("b", HttpMethod::Get, "/b", &["only"], vec![]),
    ]);
    let cli = DynamicCli::from_spec(config(), spec);
    let tree = cli.build_command();
    assert!(tree.groups.is_empty());
    assert_eq!(tree.commands.len(), 2);
    assert_eq!(tree.about, "Test API");
    let d = cli.dispatch(&invocation(&["b"], &[])).unwrap();
    assert_eq!(d.operation, 1);
}

#[test]
fn op_command_arguments() {
    let mut p = param("status", "status", ParamIn::Query);
    p.required = true;
    p.schema.enum_values = Some(vec!["available".to_string(), "sold".to_string()]);
    p.schema.default = Some("available".to_string());
    p.description = Some("Status".to_string());
    let mut o = op("find", HttpMethod::Get, "/pet", &[], vec![p, param("q", "q", ParamIn::Query)]);
    o.summary = Some("Find".to_string());
    o.request_body = Some(RequestBody { required: true, description: None });
    let c = DynamicCli::build_op_command(&o);
    assert_eq!(c.about, "[GET] Find");
    assert_eq!(c.args.len(), 3);
    assert_eq!(c.args[0].help, "Status");
    assert!(c.args[0].required);
    assert_eq!(c.args[0].possible_values.as_ref().unwrap().len(), 2);
    assert_eq!(c.args[0].default_value.as_deref(), Some("available"));
    assert_eq!(c.args[1].help, "q");
    assert_eq!(c.args[2].id, "body");
    assert_eq!(c.args[2].short, Some('d'));
    assert_eq!(c.args[2].help, "Request body as a JSON string or @path/to/file");
    assert!(c.args[2].required);
}

#[test]
fn dispatch_through_groups() {
    let cli = petstore();
    let d = cli.dispatch(&invocation(&["pet", "add-pet"], &[])).unwrap();
    assert_eq!(d.operation, 2);
    assert_eq!(d.base_url, "https://api.example.com");
    assert_eq!(d.token, None);
    assert_eq!(d.format, OutputFormat::Pretty);
    assert_eq!(cli.dispatch(&invocation(&["default", "ping"], &[])).unwrap().operation, 3);
    assert!(cli.dispatch(&invocation(&["add-pet"], &[])).is_none());
    assert!(cli.dispatch(&invocation(&["store", "add-pet"], &[])).is_none());
}

#[test]
fn every_operation_route_dispatches_to_it() {
    let cli = petstore();
    let tree = cli.build_command();
    for g in &tree.groups {
        for c in &g.commands {
            let d = cli.dispatch(&invocation(&[g.name.as_str(), c.name.as_str()], &[])).unwrap();
            assert_eq!(cli.spec().operations[d.operation].command_name, c.name);
        }
    }
    let total: usize = tree.groups.iter().map(|g| g.commands.len()).sum();
    assert_eq!(total, cli.spec().operations.len());
}

#[test]
fn dispatch_settings_precedence() {
    let mut cfg = config();
    cfg.base_url_override = Some("https://override".to_string());
    cfg.auth_token = Some("cfg-token".to_string());
    cfg.output_format = OutputFormat::Raw;
    let spec = make_spec(vec![op("a", HttpMethod::Get, "/a", &[], vec![])]);
    let cli = DynamicCli::from_spec(cfg, spec);
    let d = cli.dispatch(&invocation(&["a"], &[])).unwrap();
    assert_eq!(d.base_url, "https://override");
    assert_eq!(d.token.as_deref(), Some("cfg-token"));
    assert_eq!(d.format, OutputFormat::Raw);
    let mut inv = invocation(&["a"], &[]);
    inv.base_url = Some("http://cli".to_string());
    inv.token = Some("cli-token".to_string());
    inv.output = Some("pretty".to_string());
    let d = cli.dispatch(&inv).unwrap();
    assert_eq!(d.base_url, "http://cli");
    assert_eq!(d.token.as_deref(), Some("cli-token"));
    assert_eq!(d.format, OutputFormat::Pretty);
    inv.output = Some("raw".to_string());
    assert_eq!(cli.dispatch(&inv).unwrap().format, OutputFormat::Raw);

    let mut bare = make_spec(vec![op("a", HttpMethod::Get, "/a", &[], vec![])]);
    bare.servers.clear();
    let d = DynamicCli::from_spec(config(), bare).dispatch(&invocation(&["a"], &[])).unwrap();
    assert_eq!(d.base_url, "https://localhost");
}

#[test]
fn requests_fill_path_query_headers_and_body() {
    let o = op(
        "get",
        HttpMethod::Patch,
        "/pet/{petId}/{petId}/x",
        &[],
        vec![
            param("petId", "pet-id", ParamIn::Path),
            param("status", "status", ParamIn::Query),
            param("X-A", "xa", ParamIn::Header),
            param("X-A", "xa2", ParamIn::Header),
            param("c", "c", ParamIn::Cookie),
            param("absent", "absent", ParamIn::Query),
        ],
    );
    let values: Vec<(String, String)> = [
        ("pet-id", "7"),
        ("status", "sold"),
        ("xa", "1"),
        ("xa2", "2"),
        ("c", "cookie"),
        ("body", "@body.json"),
    ]
    .iter()
    .map(|(a, b)| (a.to_string(), b.to_string()))
    .collect();
    let r = DynamicCli::build_request(&o, &values, "https://api.example.com//", Some("tok"));
    assert_eq!(r.method, HttpMethod::Patch);
    assert_eq!(r.url, "https://api.example.com/pet/7/7/x");
    assert_eq!(r.bearer_token.as_deref(), Some("tok"));
    assert_eq!(r.query, vec![("status".to_string(), "sold".to_string())]);
    assert_eq!(
        r.headers,
        vec![
            ("X-A".to_string(), "2".to_string()),
            ("Content-Type".to_string(), "application/json".to_string())
        ]
    );
    assert!(matches!(&r.body, Some(BodySource::File(p)) if p == "body.json"));

    let inline: Vec<(String, String)> = vec![("body".to_string(), "{\"a\":1}".to_string())];
    let r = DynamicCli::build_request(&o, &inline, "http://h", None);
    assert_eq!(r.url, "http://h/pet/{petId}/{petId}/x");
    assert!(matches!(&r.body, Some(BodySource::Inline(t)) if t == "{\"a\":1}"));
    assert!(r.query.is_empty());
    assert_eq!(r.bearer_token, None);
    let none = DynamicCli::build_request(&o, &Vec::new(), "http://h", None);
    assert!(none.body.is_none());
    assert!(none.headers.is_empty());
}

#[test]
fn responses_render() {
    let raw = DynamicCli::render_response(OutputFormat::Raw, true, "{\"a\":1}").unwrap();
    assert_eq!(raw.text, "{\"a\":1}");
    assert!(!raw.failed);
    let pretty = DynamicCli::render_response(OutputFormat::Pretty, false, "{\"a\":[1,2]}").unwrap();
    assert_eq!(pretty.text, "{\n  \"a\": [\n    1,\n    2\n  ]\n}");
    assert!(pretty.failed);
    let text = DynamicCli::render_response(OutputFormat::Pretty, true, "not json").unwrap();
    assert_eq!(text.text, "not json");
}

#[test]
fn app_names() {
    assert_eq!(derive_app_name("C:\\specs\\petstore.v2.json"), "petstore.v2");
    assert_eq!(derive_app_name("https://x/api.yaml?raw=1#top"), "api");
    assert_eq!(derive_app_name("https://x/.json"), "api");
    assert_eq!(derive_app_name(""), "api");
    assert_eq!(derive_app_name("noext"), "noext");
}
