//! The command generator.

use api2cli::generator::CliGenerator;

#[test]
fn test_command_name() {
    let gen = CliGenerator::new();
    assert_eq!(gen.make_command_name("get", "/users"), "get-users");
    assert_eq!(gen.make_command_name("get", "/users/{id}"), "get-users-id");
}

use api2cli::generator::{variant_name, ParamLocation};
use api2cli::json::JsonValue;
use api2cli::ProjectGenerator;

fn to_json(v: &serde_json::Value) -> JsonValue {
    match v {
        serde_json::Value::Null => JsonValue::Null,
        serde_json::Value::Bool(b) => JsonValue::Bool(*b),
        serde_json::Value::Number(n) => JsonValue::Number(n.to_string()),
        serde_json::Value::String(s) => JsonValue::Str(s.clone()),
        serde_json::Value::Array(a) => JsonValue::Array(a.iter().map(to_json).collect()),
        serde_json::Value::Object(m) => {
            JsonValue::Object(m.iter().map(|(k, v)| (k.clone(), to_json(v))).collect())
        }
    }
}

fn doc(text: &str) -> JsonValue {
    to_json(&serde_json::from_str::<serde_json::Value>(text).unwrap())
}

#[test]
fn command_names_keep_empty_segments() {
    let gen = CliGenerator::new();
    assert_eq!(gen.make_command_name("post", "/"), "post-");
    assert_eq!(gen.make_command_name("get", "/a//{b}/"), "get-a--b-");
    assert_eq!(gen.make_command_name("get", "/{}"), "get-");
}

#[test]
fn variant_names() {
    assert_eq!(variant_name("get-users-id"), "GetUsersId");
    assert_eq!(variant_name("get--x"), "GetX");
    assert_eq!(variant_name(""), "");
}

#[test]
fn generate_from_json_requires_paths() {
    let mut gen = CliGenerator::new();
    assert_eq!(
        gen.generate_from_json(&doc(r#"{ "info": {} }"#)),
        Err("No paths found in spec".to_string())
    );
    assert_eq!(
        gen.generate_from_json(&doc(r#"{ "paths": [] }"#)),
        Err("No paths found in spec".to_string())
    );
    assert_eq!(gen.generate_from_json(&doc(r#"{ "paths": {} }"#)), Ok(()));
}

const SPEC: &str = r#"{ "paths": { "/users/{user-id}": { "get": {
    "summary": "Get user",
    "parameters": [
        { "name": "user-id", "in": "path", "required": true, "description": "The id" },
        { "name": "verbose", "in": "query", "description": "More" }
    ]
} } } }"#;

#[test]
fn generated_app_exact_text() {
    let mut gen = CliGenerator::new();
    gen.generate_from_json(&doc(SPEC)).unwrap();
    let code = gen.generate_cli_app("demo", None, None);
    let expected = [
        "//! demo - Auto-generated CLI from OpenAPI spec\n\n",
        "use anyhow::Result;\n",
        "use clap::{Parser, Subcommand};\n",
        "use reqwest::blocking::Client;\n\n",
        "#[derive(Parser, Debug)]\n",
        "#[command(name = \"cli\")]\n",
        "#[command(about = \"Auto-generated CLI from OpenAPI\")]\n",
        "struct Args {\n",
        "    #[command(subcommand)]\n",
        "    command: Commands,\n",
        "}\n\n",
        "#[derive(Subcommand, Debug)]\n",
        "enum Commands {\n",
        "    /// Get user\n",
        "    GetUsersUserId(GetUsersUserId),\n",
        "}\n\n",
        "#[derive(Parser, Debug)]\n",
        "struct GetUsersUserId {\n",
        "    /// The id\n",
        "    user_id: String,\n",
        "    /// More\n",
        "    #[arg(long)]\n",
        "    verbose: Option<String>,\n",
        "}\n\n",
        "fn main() -> Result<()> {\n",
        "    let args = Args::parse();\n",
        "    let client = Client::new();\n",
        "    let base_url = \"https://api.example.com\";\n\n",
        "    let token = std::env::var(\"API_TOKEN\").ok();\n",
        "    match args.command {\n",
        "        Commands::GetUsersUserId(args) => {\n",
        "            let mut url = \"https://api.example.com/users/${user_id}\".replace(\"${user_id}\", &args.user_id);\n",
        "            let mut request = client.get(url);\n",
        "            if let Some(t) = &token {\n",
        "                request = request.bearer_auth(t);\n",
        "            }\n",
        "            if let Some(v) = &args.verbose {\n",
        "                request = request.query(&[(\"verbose\", v)]);\n",
        "            }\n",
        "            let response = request.send()?;\n",
        "            println!(\"{}\", response.text()?);\n",
        "            Ok(())\n",
        "        }\n",
        "    }\n",
        "}\n",
    ]
    .concat();
    assert_eq!(code, expected);
}

#[test]
fn generated_app_with_base_url_token_and_body() {
    let mut gen = CliGenerator::new();
    gen.generate_from_json(&doc(
        r#"{ "paths": { "/items": { "post": { "description": "Create", "requestBody": {} } },
                         "/skip": "not an object" } }"#,
    ))
    .unwrap();
    let code = gen.generate_cli_app("x", Some("http://h/"), Some("tok"));
    assert!(code.contains("    /// Create\n    PostItems(PostItems),\n"));
    assert!(code.contains("    /// JSON request body\n    #[arg(long)]\n    body: Option<String>,\n"));
    assert!(code.contains("    let base_url = \"http://h/\";\n\n    let token = Some(\"tok\");\n"));
    assert!(code.contains("            let url = \"http://h/items\";\n            let mut request = client.post(url);\n"));
    assert!(code.contains("                request = request.header(\"Content-Type\", \"application/json\");\n"));
}

#[test]
fn generator_reads_parameter_details() {
    let mut gen = CliGenerator::default();
    gen.generate_from_json(&doc(
        r#"{ "paths": { "/a": { "delete": { "parameters": [
            { "in": "header" }, { "name": "b", "in": "body" }, { "name": "c", "schema": { "type": "integer" } }
        ] } } } }"#,
    ))
    .unwrap();
    let code = gen.generate_cli_app("n", None, None);
    // The query parameter `c` is a field; header and body parameters are not.
    assert!(code.contains("    #[arg(long)]\n    c: Option<String>,\n"));
    assert!(!code.contains("unknown:"));
    assert!(code.contains("client.delete(url)"));
    let _ = ParamLocation::Body;
}

#[test]
fn project_texts() {
    let gen = ProjectGenerator {
        app_name: "testapi".to_string(),
        spec_source: "https://api.example.com/openapi.json".to_string(),
        output_dir: ".".to_string(),
    };
    let cargo = gen.cargo_toml();
    assert!(cargo.contains("name = \"testapi\""));
    assert!(cargo.contains("api2cli"));
    let main_rs = gen.main_rs();
    assert!(main_rs.contains("testapi"));
    assert!(main_rs.contains("api.example.com"));
    assert!(main_rs.contains("DynamicCli::new"));
    assert_eq!(gen.gitignore(), "/target\n");
}
