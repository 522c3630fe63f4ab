//! Spec reading: names, operation ids, Swagger 2.0 and OpenAPI 3 documents.

use api2cli::error::Error;
use api2cli::json::JsonValue;
use api2cli::spec::{
    generate_operation_id, to_kebab_case, HttpMethod, ParamIn, SchemaType, SpecLoader,
};

/// A JSON document read with serde_json, as the library's value.
fn doc(text: &str) -> JsonValue {
    to_json(&serde_json::from_str::<serde_json::Value>(text).unwrap())
}

fn to_json(v: &serde_json::Value) -> JsonValue {
    match v {
        serde_json::Value::Null => JsonValue::Null,
        serde_json::Value::Bool(b) => JsonValue::Bool(*b),
        serde_json::Value::Number(n) => JsonValue::Number(n.to_string()),
        serde_json::Value::String(s) => JsonValue::Str(s.clone()),
        serde_json::Value::Array(a) => JsonValue::Array(a.iter().map(to_json).collect()),
        serde_json::Value::Object(m) => {
            JsonValue::Object(m.iter().map(|(k, v)| (k.clone(), to_json(v))).collect())
        }
    }
}

#[test]
fn kebab_camel() {
    assert_eq!(to_kebab_case("getPetById"), "get-pet-by-id");
    assert_eq!(to_kebab_case("findPetsByStatus"), "find-pets-by-status");
    assert_eq!(to_kebab_case("addPet"), "add-pet");
    assert_eq!(to_kebab_case("updatePet"), "update-pet");
    assert_eq!(to_kebab_case("deletePet"), "delete-pet");
}

#[test]
fn kebab_pascal_all_caps() {
    assert_eq!(to_kebab_case("XMLParser"), "xml-parser");
    assert_eq!(to_kebab_case("HTTPSConnection"), "https-connection");
}

#[test]
fn kebab_snake() {
    assert_eq!(to_kebab_case("get_pet_by_id"), "get-pet-by-id");
    assert_eq!(to_kebab_case("some_var"), "some-var");
}

#[test]
fn generate_op_id_no_path_param() {
    assert_eq!(generate_operation_id("get", "/pets"), "get-pets");
    assert_eq!(generate_operation_id("post", "/pet"), "post-pet");
}

#[test]
fn generate_op_id_with_path_param() {
    assert_eq!(
        generate_operation_id("get", "/pet/{petId}"),
        "get-pet-by-pet-id"
    );
    assert_eq!(
        generate_operation_id("delete", "/store/order/{orderId}"),
        "delete-store-order-by-order-id"
    );
}

#[test]
fn parse_swagger_2_minimal() {
    let json = doc(
        r#"{
            "swagger": "2.0",
            "info": { "title": "Petstore", "version": "1.0.0" },
            "host": "petstore.swagger.io",
            "basePath": "/v2",
            "schemes": ["https"],
            "paths": {
                "/pet": {
                    "get": {
                        "operationId": "getPets",
                        "summary": "List pets",
                        "parameters": [],
                        "responses": {}
                    },
                    "post": {
                        "operationId": "addPet",
                        "summary": "Add a pet",
                        "parameters": [
                            {
                                "in": "body",
                                "name": "body",
                                "required": true
                            }
                        ],
                        "responses": {}
                    }
                },
                "/pet/{petId}": {
                    "get": {
                        "operationId": "getPetById",
                        "summary": "Find pet by ID",
                        "parameters": [
                            {
                                "in": "path",
                                "name": "petId",
                                "required": true,
                                "type": "integer"
                            }
                        ],
                        "responses": {}
                    }
                }
            }
        }"#,
    );

    let spec = SpecLoader::parse(&json, "test").unwrap();

    assert_eq!(spec.info.title, "Petstore");
    assert_eq!(spec.servers, vec!["https://petstore.swagger.io/v2"]);
    assert_eq!(spec.operations.len(), 3);

    let get_pets = spec.operations.iter().find(|o| o.operation_id == "getPets").unwrap();
    assert_eq!(get_pets.command_name, "get-pets");
    assert_eq!(get_pets.method, HttpMethod::Get);
    assert!(get_pets.request_body.is_none());

    let add_pet = spec.operations.iter().find(|o| o.operation_id == "addPet").unwrap();
    assert!(add_pet.request_body.is_some());
    assert!(add_pet.request_body.as_ref().unwrap().required);

    let get_by_id = spec
        .operations
        .iter()
        .find(|o| o.operation_id == "getPetById")
        .unwrap();
    assert_eq!(get_by_id.command_name, "get-pet-by-id");
    assert_eq!(get_by_id.parameters.len(), 1);
    let param = &get_by_id.parameters[0];
    assert_eq!(param.name, "petId");
    assert_eq!(param.cli_name, "petid");
    assert_eq!(param.location, ParamIn::Path);
    assert!(param.required);
}

#[test]
fn parse_openapi_3_minimal() {
    let json = doc(
        r#"{
            "openapi": "3.0.0",
            "info": { "title": "Sample API", "version": "0.1.0" },
            "servers": [{ "url": "https://api.example.com/v1" }],
            "paths": {
                "/items": {
                    "get": {
                        "operationId": "listItems",
                        "summary": "List all items",
                        "parameters": [
                            {
                                "name": "limit",
                                "in": "query",
                                "schema": { "type": "integer" }
                            }
                        ],
                        "responses": {}
                    }
                }
            }
        }"#,
    );

    let spec = SpecLoader::parse(&json, "test").unwrap();
    assert_eq!(spec.info.title, "Sample API");
    assert_eq!(spec.servers, vec!["https://api.example.com/v1"]);
    assert_eq!(spec.operations.len(), 1);

    let op = &spec.operations[0];
    assert_eq!(op.operation_id, "listItems");
    assert_eq!(op.command_name, "list-items");
    assert_eq!(op.parameters[0].location, ParamIn::Query);
    assert_eq!(op.parameters[0].schema.schema_type, SchemaType::Integer);
}

#[test]
fn unsupported_version_error() {
    let json = doc(r#"{ "info": { "title": "Bad", "version": "1" } }"#);
    let err = SpecLoader::parse(&json, "test").unwrap_err();
    assert!(matches!(err, Error::UnsupportedVersion(_)));
}

// ── Further cases ─────────────────────────────────────────────────────────────

fn v3(paths: &str) -> JsonValue {
    doc(&format!(
        r#"{{ "openapi": "3.0.1", "info": {{ "title": "T", "version": "2" }}, "paths": {} }}"#,
        paths
    ))
}

#[test]
fn kebab_collapses_and_trims_hyphens() {
    assert_eq!(to_kebab_case("__some__var__"), "some-var");
    assert_eq!(to_kebab_case("a b  c"), "a-b-c");
    assert_eq!(to_kebab_case("---"), "");
    assert_eq!(to_kebab_case(""), "");
}

#[test]
fn kebab_output_has_clean_hyphens() {
    for s in ["getPetById", "_X_Y_", "  lead", "trail__", "A--B", "HTTPSConnection_"] {
        let k = to_kebab_case(s);
        assert!(!k.starts_with('-') && !k.ends_with('-') && !k.contains("--"), "{k}");
    }
}

#[test]
fn kebab_is_idempotent_on_ascii() {
    for s in ["getPetById", "_X_Y_", "  lead", "XMLParser", "a-b--c", "Some Var_name", "v2Api"] {
        let k = to_kebab_case(s);
        assert_eq!(to_kebab_case(&k), k, "{s}");
    }
    for k in ["get-pet-by-id", "a1-b2", "x", "", "list.items"] {
        assert_eq!(to_kebab_case(k), k);
    }
    // An uppercase letter with no lowercase form breaks idempotence.
    assert_eq!(to_kebab_case("A\u{2102}C"), "a\u{2102}c");
    assert_eq!(to_kebab_case("a\u{2102}c"), "a-\u{2102}c");
}

#[test]
fn kebab_is_empty_only_for_separators() {
    for s in ["", "-", "_ -", "  __--"] {
        assert_eq!(to_kebab_case(s), "", "{s:?}");
    }
    for s in ["a", "_x_", "- 1", "\u{130}"] {
        let k = to_kebab_case(s);
        assert!(!k.is_empty() && !k.contains('_') && !k.contains(' '), "{s:?}");
    }
    assert_eq!(to_kebab_case("\u{130}"), "i\u{307}");
}

#[test]
fn operation_id_skips_empty_segments() {
    assert_eq!(generate_operation_id("get", "//pets//{petId}/"), "get-pets-by-pet-id");
    assert_eq!(generate_operation_id("get", "/"), "get");
    assert_eq!(generate_operation_id("put", "/a/{}"), "put-a-by-");
}

#[test]
fn method_names() {
    assert_eq!(SpecLoader::parse_method("GET"), HttpMethod::Get);
    assert_eq!(SpecLoader::parse_method("Options"), HttpMethod::Options);
    assert_eq!(SpecLoader::parse_method("delete"), HttpMethod::Delete);
    assert_eq!(SpecLoader::parse_method("bogus"), HttpMethod::Get);
    assert_eq!(HttpMethod::Patch.as_str(), "PATCH");
    assert_eq!(HttpMethod::Head.key(), "head");
}

#[test]
fn missing_operation_id_is_generated() {
    let spec = SpecLoader::parse(&v3(r#"{ "/pet/{petId}": { "get": {}, "delete": {} } }"#), "s")
        .unwrap();
    assert_eq!(spec.operations.len(), 2);
    assert_eq!(spec.operations[0].operation_id, "get-pet-by-pet-id");
    assert_eq!(spec.operations[0].command_name, "get-pet-by-pet-id");
    assert_eq!(spec.operations[1].method, HttpMethod::Delete);
    assert_eq!(spec.operations[1].operation_id, "delete-pet-by-pet-id");
}

#[test]
fn methods_come_in_fixed_order() {
    let spec = SpecLoader::parse(
        &v3(r#"{ "/x": { "options": {}, "patch": {}, "head": {}, "get": {}, "trace": {} } }"#),
        "s",
    )
    .unwrap();
    let methods: Vec<HttpMethod> = spec.operations.iter().map(|o| o.method).collect();
    assert_eq!(methods, vec![HttpMethod::Get, HttpMethod::Patch, HttpMethod::Head, HttpMethod::Options]);
}

#[test]
fn missing_info_is_invalid() {
    let err = SpecLoader::parse(&doc(r#"{ "openapi": "3.0.0", "paths": {} }"#), "s").unwrap_err();
    match err {
        Error::InvalidSpec(m) => assert_eq!(m, "missing 'info' field"),
        other => panic!("unexpected {other:?}"),
    }
}

#[test]
fn unsupported_version_message() {
    let err = SpecLoader::parse(&doc(r#"{ "swagger": "1.2", "info": {} }"#), "my.json").unwrap_err();
    assert_eq!(
        err.message(),
        "Unsupported OpenAPI version: 'my.json' does not declare a supported OpenAPI version (swagger: 2.x or openapi: 3.x)"
    );
}

#[test]
fn load_reports_fetch_failure() {
    let err = SpecLoader::load("nowhere.yaml", Err("no such file".to_string())).unwrap_err();
    match &err {
        Error::SpecLoad { url, message } => {
            assert_eq!(url, "nowhere.yaml");
            assert_eq!(message, "no such file");
        }
        other => panic!("unexpected {other:?}"),
    }
    assert_eq!(err.message(), "Failed to load spec from 'nowhere.yaml': no such file");
    assert_eq!(Error::OperationNotFound("x".to_string()).message(), "Operation not found: 'x'");
    assert_eq!(Error::InvalidSpec("y".to_string()).message(), "Invalid OpenAPI spec: y");
}

#[test]
fn load_parses_fetched_document() {
    let json = r#"{ "openapi": "3.0.1", "info": { "title": "T" },
        "paths": { "/a": { "get": { "operationId": "listA" } } } }"#;
    let spec = SpecLoader::load("s", Ok(json.to_string())).unwrap();
    assert_eq!(spec.operations[0].command_name, "list-a");
    assert_eq!(spec.info.title, "T");
    let yaml = "swagger: \"2.0\"\ninfo:\n  title: Y\nhost: h\npaths:\n  /p:\n    post: {}\n";
    let spec = SpecLoader::load("s.yaml", Ok(yaml.to_string())).unwrap();
    assert_eq!(spec.info.title, "Y");
    assert_eq!(spec.servers, vec!["https://h"]);
    assert_eq!(spec.operations[0].command_name, "post-p");
    match SpecLoader::load("bad.txt", Ok("a: [1\n".to_string())).unwrap_err() {
        Error::SpecLoad { url, message } => {
            assert_eq!(url, "bad.txt");
            assert!(message.starts_with("not valid JSON or YAML: "), "{message}");
        }
        other => panic!("unexpected {other:?}"),
    }
}

/// The text of a string document, or the reason there is none.
fn read_as(r: Result<JsonValue, String>) -> Result<String, String> {
    match r {
        Ok(JsonValue::Str(s)) => Ok(s),
        Ok(_) => panic!("not a string document"),
        Err(e) => Err(e),
    }
}

#[test]
fn document_prefers_json_then_yaml() {
    let a = || JsonValue::Str("json".to_string());
    let b = || JsonValue::Str("yaml".to_string());
    assert_eq!(read_as(SpecLoader::document_from(Some(a()), Ok(b()))), Ok("json".to_string()));
    assert_eq!(
        read_as(SpecLoader::document_from(Some(a()), Err("bad".to_string()))),
        Ok("json".to_string())
    );
    assert_eq!(read_as(SpecLoader::document_from(None, Ok(b()))), Ok("yaml".to_string()));
    assert_eq!(
        read_as(SpecLoader::document_from(None, Err("mapping values are not allowed".to_string()))),
        Err("not valid JSON or YAML: mapping values are not allowed".to_string())
    );
}

#[test]
fn remote_sources() {
    assert!(SpecLoader::is_remote("https://x/openapi.json"));
    assert!(SpecLoader::is_remote("http://x"));
    assert!(!SpecLoader::is_remote("./spec.yaml"));
    assert!(!SpecLoader::is_remote("httpx://x"));
}

#[test]
fn v2_server_defaults() {
    let spec = SpecLoader::parse(&doc(r#"{ "swagger": "2.0", "info": {}, "basePath": "/api///" }"#), "s")
        .unwrap();
    assert_eq!(spec.servers, vec!["https://localhost/api"]);
    assert_eq!(spec.info.title, "API");
    assert_eq!(spec.info.version, "0.0.1");
    assert!(spec.operations.is_empty());
    let spec = SpecLoader::parse(
        &doc(r#"{ "swagger": "2.1", "info": {}, "host": "h", "schemes": ["http", "https"] }"#),
        "s",
    )
    .unwrap();
    assert_eq!(spec.servers, vec!["http://h"]);
}

#[test]
fn v3_servers_always_at_least_one() {
    let none = SpecLoader::parse(&v3("{}"), "s").unwrap();
    assert_eq!(none.servers, vec!["/"]);
    let empty = SpecLoader::parse(
        &doc(r#"{ "openapi": "3.1.0", "info": {}, "servers": [] }"#),
        "s",
    )
    .unwrap();
    assert_eq!(empty.servers, vec!["/"]);
    let two = SpecLoader::parse(
        &doc(r#"{ "openapi": "3.1.0", "info": {}, "servers": [{"url": "a"}, {"x": 1}, {"url": "b"}] }"#),
        "s",
    )
    .unwrap();
    assert_eq!(two.servers, vec!["a", "b"]);
}

#[test]
fn parameters_locations_and_names() {
    let spec = SpecLoader::parse(
        &v3(r#"{ "/a/{Pet_Id}": { "get": { "parameters": [
            { "name": "Pet_Id", "in": "path" },
            { "name": "X-Trace", "in": "header", "required": true },
            { "name": "session", "in": "cookie" },
            { "in": "weird" }
        ] } } }"#),
        "s",
    )
    .unwrap();
    let ps = &spec.operations[0].parameters;
    assert_eq!(ps.len(), 4);
    assert_eq!(ps[0].cli_name, "pet-id");
    assert_eq!(ps[0].location, ParamIn::Path);
    assert!(ps[0].required);
    assert_eq!(ps[1].location, ParamIn::Header);
    assert_eq!(ps[1].cli_name, "x-trace");
    assert_eq!(ps[2].location, ParamIn::Cookie);
    assert!(!ps[2].required);
    assert_eq!(ps[3].name, "param");
    assert_eq!(ps[3].location, ParamIn::Query);
    assert_eq!(ps[3].schema.schema_type, SchemaType::String);
}

#[test]
fn schema_enum_and_defaults() {
    let spec = SpecLoader::parse(
        &v3(r#"{ "/a": { "get": { "parameters": [
            { "name": "s", "in": "query", "schema": { "type": "string", "enum": ["a", 1, "b"], "default": "a" } },
            { "name": "n", "in": "query", "schema": { "type": "number", "default": 10 } },
            { "name": "b", "in": "query", "schema": { "type": "boolean", "default": true } },
            { "name": "q", "in": "query", "schema": { "type": "array", "default": "say \"hi\"" } },
            { "name": "o", "in": "query", "schema": { "type": "object", "default": {"k": [1, null]} } }
        ] } } }"#),
        "s",
    )
    .unwrap();
    let ps = &spec.operations[0].parameters;
    assert_eq!(ps[0].schema.enum_values, Some(vec!["a".to_string(), "b".to_string()]));
    assert_eq!(ps[0].schema.default.as_deref(), Some("a"));
    assert_eq!(ps[1].schema.schema_type, SchemaType::Number);
    assert_eq!(ps[1].schema.default.as_deref(), Some("10"));
    assert_eq!(ps[2].schema.schema_type, SchemaType::Boolean);
    assert_eq!(ps[2].schema.default.as_deref(), Some("true"));
    assert_eq!(ps[3].schema.schema_type, SchemaType::Array);
    assert_eq!(ps[3].schema.default.as_deref(), Some("say \\\"hi\\"));
    assert_eq!(ps[4].schema.schema_type, SchemaType::Object);
    assert_eq!(ps[4].schema.default.as_deref(), Some("{\"k\":[1,null]}"));
}

#[test]
fn v2_inline_schema_and_v3_default_schema() {
    let v2 = SpecLoader::parse(
        &doc(r#"{ "swagger": "2.0", "info": {}, "paths": { "/a": { "get": { "parameters": [
            { "name": "limit", "in": "query", "type": "integer", "default": 5 }
        ] } } } }"#),
        "s",
    )
    .unwrap();
    let p = &v2.operations[0].parameters[0];
    assert_eq!(p.schema.schema_type, SchemaType::Integer);
    assert_eq!(p.schema.default.as_deref(), Some("5"));
    let v3doc = SpecLoader::parse(
        &v3(r#"{ "/a": { "get": { "parameters": [
            { "name": "limit", "in": "query", "type": "integer", "default": 5 }
        ] } } }"#),
        "s",
    )
    .unwrap();
    let p = &v3doc.operations[0].parameters[0];
    assert_eq!(p.schema.schema_type, SchemaType::String);
    assert_eq!(p.schema.default, None);
}

#[test]
fn path_level_params_are_merged_and_overridden() {
    let spec = SpecLoader::parse(
        &v3(r#"{ "/a/{id}": {
            "parameters": [
                { "name": "id", "in": "path", "description": "path level" },
                { "name": "x", "in": "query" }
            ],
            "get": { "parameters": [ { "name": "id", "in": "path", "description": "op level" } ] },
            "post": {}
        } }"#),
        "s",
    )
    .unwrap();
    let get = &spec.operations[0];
    assert_eq!(get.parameters.len(), 2);
    assert_eq!(get.parameters[0].name, "x");
    assert_eq!(get.parameters[1].description.as_deref(), Some("op level"));
    let post = &spec.operations[1];
    assert_eq!(post.parameters.len(), 2);
    assert_eq!(post.parameters[0].description.as_deref(), Some("path level"));
}

#[test]
fn operation_param_overrides_path_level_ref() {
    let spec = SpecLoader::parse(
        &doc(r##"{
            "openapi": "3.0.0",
            "info": {},
            "components": { "parameters": {
                "Limit": { "name": "limit", "in": "query", "description": "shared" }
            } },
            "paths": { "/a": {
                "parameters": [ { "$ref": "#/components/parameters/Limit" } ],
                "get": { "parameters": [
                    { "name": "limit", "in": "query", "description": "own" }
                ] },
                "put": { "parameters": [
                    { "name": "limit", "in": "header", "description": "other place" }
                ] }
            } }
        }"##),
        "s",
    )
    .unwrap();
    let get = &spec.operations[0];
    assert_eq!(get.parameters.len(), 1);
    assert_eq!(get.parameters[0].description.as_deref(), Some("own"));
    let put = &spec.operations[1];
    assert_eq!(put.parameters.len(), 2);
    assert_eq!(put.parameters[0].description.as_deref(), Some("shared"));
    assert_eq!(put.parameters[1].description.as_deref(), Some("other place"));
}

#[test]
fn refs_are_resolved() {
    let spec = SpecLoader::parse(
        &doc(r##"{
            "openapi": "3.0.0",
            "info": {},
            "components": { "parameters": {
                "Limit": { "name": "limit", "in": "query", "description": "max" },
                "a/b~c": { "name": "odd", "in": "header" }
            } },
            "paths": { "/a": { "get": {
                "tags": ["t1", 3, "t2"],
                "requestBody": { "required": true, "description": "payload" },
                "parameters": [
                    { "$ref": "#/components/parameters/Limit" },
                    { "$ref": "#/components/parameters/a~1b~0c" },
                    { "$ref": "#/components/missing" },
                    { "$ref": "http://elsewhere" }
                ]
            } } }
        }"##),
        "s",
    )
    .unwrap();
    let op = &spec.operations[0];
    assert_eq!(op.tags, vec!["t1", "t2"]);
    let rb = op.request_body.as_ref().unwrap();
    assert!(rb.required);
    assert_eq!(rb.description.as_deref(), Some("payload"));
    assert_eq!(op.parameters.len(), 4);
    assert_eq!(op.parameters[0].name, "limit");
    assert_eq!(op.parameters[0].description.as_deref(), Some("max"));
    assert_eq!(op.parameters[1].name, "odd");
    assert_eq!(op.parameters[1].location, ParamIn::Header);
    assert_eq!(op.parameters[2].name, "param");
}

#[test]
fn v2_body_parameter_is_request_body_v3_is_not() {
    let body = r#"{ "/a": { "post": { "parameters": [ { "name": "b", "in": "body", "description": "d" } ] } } }"#;
    let v2 = SpecLoader::parse(
        &doc(&format!(r#"{{ "swagger": "2.0", "info": {{}}, "paths": {} }}"#, body)),
        "s",
    )
    .unwrap();
    let rb = v2.operations[0].request_body.as_ref().unwrap();
    assert!(!rb.required);
    assert_eq!(rb.description.as_deref(), Some("d"));
    assert!(v2.operations[0].parameters.is_empty());
    let v3doc = SpecLoader::parse(&v3(body), "s").unwrap();
    assert!(v3doc.operations[0].request_body.is_none());
    assert_eq!(v3doc.operations[0].parameters[0].location, ParamIn::Query);
}

#[test]
fn paths_that_are_not_an_object_give_no_operations() {
    let spec = SpecLoader::parse(&v3("[1, 2]"), "s").unwrap();
    assert!(spec.operations.is_empty());
}
