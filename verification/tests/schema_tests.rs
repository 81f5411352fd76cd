use llm_tools_config::{
    generate_gemini_tools_config, generate_openai_tools_config, FunctionDefinition,
    FunctionParameter, ToolConfig,
};

fn param(
    name: &str,
    description: &str,
    param_type: &str,
    enum_values: Option<Vec<&str>>,
    required: bool,
) -> FunctionParameter {
    FunctionParameter {
        name: name.to_owned(),
        description: description.to_owned(),
        param_type: param_type.to_owned(),
        enum_values: enum_values.map(|vs| vs.into_iter().map(|v| v.to_owned()).collect()),
        required,
    }
}

fn weather_config() -> ToolConfig {
    ToolConfig {
        functions: vec![FunctionDefinition {
            name: "get_current_weather".to_owned(),
            description: "获取当前天气".to_owned(),
            parameters: vec![
                param("location", "城市名", "string", None, true),
                param(
                    "unit",
                    "温度单位",
                    "string",
                    Some(vec!["celsius", "fahrenheit"]),
                    false,
                ),
            ],
        }],
    }
}

fn parse(s: &str) -> serde_json::Value {
    serde_json::from_str(s).expect("output must be valid JSON")
}

#[test]
fn empty_config_gemini_exact() {
    let config = ToolConfig { functions: vec![] };
    let out = generate_gemini_tools_config(&config).unwrap();
    let expected = "{\n  \"tools\": {\n    \"functionDeclarations\": []\n  }\n}";
    assert_eq!(out, expected);
}

#[test]
fn empty_config_openai_exact() {
    let config = ToolConfig { functions: vec![] };
    let out = generate_openai_tools_config(&config).unwrap();
    let expected = "{\n  \"tools\": []\n}";
    assert_eq!(out, expected);
}

#[test]
fn weather_scenario_gemini() {
    let out = generate_gemini_tools_config(&weather_config()).unwrap();
    let doc = parse(&out);
    let decls = doc["tools"]["functionDeclarations"].as_array().unwrap();
    assert_eq!(decls.len(), 1);
    let decl = &decls[0];
    assert_eq!(decl["name"], serde_json::Value::String("get_current_weather".to_owned()));
    assert_eq!(decl["description"], serde_json::Value::String("获取当前天气".to_owned()));
    let params = &decl["parameters"];
    assert_eq!(params["type"], serde_json::Value::String("object".to_owned()));
    let props = params["properties"].as_object().unwrap();
    assert_eq!(props.len(), 2);
    let location = &props["location"];
    assert_eq!(location["type"], serde_json::Value::String("string".to_owned()));
    assert_eq!(location["description"], serde_json::Value::String("城市名".to_owned()));
    assert!(location.get("enum").is_none());
    let unit = &props["unit"];
    assert_eq!(unit["type"], serde_json::Value::String("string".to_owned()));
    let unit_enum = unit["enum"].as_array().unwrap();
    assert_eq!(unit_enum.len(), 2);
    assert_eq!(unit_enum[0], serde_json::Value::String("celsius".to_owned()));
    assert_eq!(unit_enum[1], serde_json::Value::String("fahrenheit".to_owned()));
    let required = params["required"].as_array().unwrap();
    assert_eq!(required.len(), 1);
    assert_eq!(required[0], serde_json::Value::String("location".to_owned()));
}

#[test]
fn weather_scenario_openai() {
    let out = generate_openai_tools_config(&weather_config()).unwrap();
    let doc = parse(&out);
    let tools = doc["tools"].as_array().unwrap();
    assert_eq!(tools.len(), 1);
    let tool = &tools[0];
    assert_eq!(tool["type"], serde_json::Value::String("function".to_owned()));
    let func = &tool["function"];
    assert_eq!(func["name"], serde_json::Value::String("get_current_weather".to_owned()));
    // The parameters object nested in the envelope is identical to the
    // one the Gemini builder emits for the same input.
    let gemini_out = generate_gemini_tools_config(&weather_config()).unwrap();
    let gemini_doc = parse(&gemini_out);
    assert_eq!(
        func["parameters"],
        gemini_doc["tools"]["functionDeclarations"][0]["parameters"]
    );
}

#[test]
fn required_list_exact_and_ordered() {
    let config = ToolConfig {
        functions: vec![FunctionDefinition {
            name: "f".to_owned(),
            description: "d".to_owned(),
            parameters: vec![
                param("a", "", "string", None, true),
                param("b", "", "number", None, false),
                param("c", "", "boolean", None, true),
                param("d", "", "string", None, false),
                param("e", "", "string", None, true),
            ],
        }],
    };
    for out in [
        generate_gemini_tools_config(&config).unwrap(),
        generate_openai_tools_config(&config).unwrap(),
    ] {
        let doc = parse(&out);
        let params = if doc["tools"].is_array() {
            &doc["tools"][0]["function"]["parameters"]
        } else {
            &doc["tools"]["functionDeclarations"][0]["parameters"]
        };
        let required = params["required"].as_array().unwrap();
        let names: Vec<&str> = required.iter().map(|v| v.as_str().unwrap()).collect();
        assert_eq!(names, vec!["a", "c", "e"]);
    }
}

#[test]
fn enum_present_exactly_when_given() {
    let config = ToolConfig {
        functions: vec![FunctionDefinition {
            name: "f".to_owned(),
            description: "d".to_owned(),
            parameters: vec![
                param("plain", "", "string", None, false),
                param("empty", "", "string", Some(vec![]), false),
                param("full", "", "string", Some(vec!["x", "y", "x"]), false),
            ],
        }],
    };
    let out = generate_gemini_tools_config(&config).unwrap();
    let doc = parse(&out);
    let props = doc["tools"]["functionDeclarations"][0]["parameters"]["properties"]
        .as_object()
        .unwrap();
    assert!(props["plain"].get("enum").is_none());
    let empty = props["empty"]["enum"].as_array().unwrap();
    assert!(empty.is_empty());
    let full = props["full"]["enum"].as_array().unwrap();
    let vals: Vec<&str> = full.iter().map(|v| v.as_str().unwrap()).collect();
    assert_eq!(vals, vec!["x", "y", "x"]);
}

#[test]
fn function_and_property_order_preserved() {
    let config = ToolConfig {
        functions: vec![
            FunctionDefinition {
                name: "zeta".to_owned(),
                description: "last alphabetically, first in input".to_owned(),
                parameters: vec![
                    param("w", "", "string", None, false),
                    param("q", "", "string", None, false),
                    param("a", "", "string", None, false),
                ],
            },
            FunctionDefinition {
                name: "alpha".to_owned(),
                description: "first alphabetically, second in input".to_owned(),
                parameters: vec![],
            },
        ],
    };
    let out = generate_gemini_tools_config(&config).unwrap();
    let doc = parse(&out);
    let decls = doc["tools"]["functionDeclarations"].as_array().unwrap();
    assert_eq!(decls[0]["name"], serde_json::Value::String("zeta".to_owned()));
    assert_eq!(decls[1]["name"], serde_json::Value::String("alpha".to_owned()));
    let props = decls[0]["parameters"]["properties"].as_object().unwrap();
    let keys: Vec<&str> = props.keys().map(|k| k.as_str()).collect();
    assert_eq!(keys, vec!["w", "q", "a"]);

    let out = generate_openai_tools_config(&config).unwrap();
    let doc = parse(&out);
    let tools = doc["tools"].as_array().unwrap();
    assert_eq!(tools[0]["function"]["name"], serde_json::Value::String("zeta".to_owned()));
    assert_eq!(tools[1]["function"]["name"], serde_json::Value::String("alpha".to_owned()));
}

#[test]
fn builders_are_deterministic() {
    let config = weather_config();
    let g1 = generate_gemini_tools_config(&config).unwrap();
    let g2 = generate_gemini_tools_config(&config).unwrap();
    assert_eq!(g1, g2);
    let o1 = generate_openai_tools_config(&config).unwrap();
    let o2 = generate_openai_tools_config(&config).unwrap();
    assert_eq!(o1, o2);
}

#[test]
fn round_trip_reserialization_is_stable() {
    for out in [
        generate_gemini_tools_config(&weather_config()).unwrap(),
        generate_openai_tools_config(&weather_config()).unwrap(),
    ] {
        let doc = parse(&out);
        let again = serde_json::to_string_pretty(&doc).unwrap();
        assert_eq!(out, again);
        assert_eq!(doc, parse(&again));
    }
}

#[test]
fn duplicate_parameter_names_last_wins() {
    let config = ToolConfig {
        functions: vec![FunctionDefinition {
            name: "f".to_owned(),
            description: "d".to_owned(),
            parameters: vec![
                param("x", "first", "string", None, true),
                param("y", "other", "number", None, false),
                param("x", "second", "boolean", Some(vec!["t", "f"]), true),
            ],
        }],
    };
    let out = generate_gemini_tools_config(&config).unwrap();
    let doc = parse(&out);
    let params = &doc["tools"]["functionDeclarations"][0]["parameters"];
    let props = params["properties"].as_object().unwrap();
    assert_eq!(props.len(), 2);
    // The duplicated name keeps its first position but the
    // later-declared definition.
    let keys: Vec<&str> = props.keys().map(|k| k.as_str()).collect();
    assert_eq!(keys, vec!["x", "y"]);
    let x = &props["x"];
    assert_eq!(x["description"], serde_json::Value::String("second".to_owned()));
    assert_eq!(x["type"], serde_json::Value::String("boolean".to_owned()));
    assert!(x.get("enum").is_some());
    // The required list is not deduplicated: both flagged occurrences
    // contribute their name.
    let required = params["required"].as_array().unwrap();
    let names: Vec<&str> = required.iter().map(|v| v.as_str().unwrap()).collect();
    assert_eq!(names, vec!["x", "x"]);
}

#[test]
fn enum_values_reach_the_output() {
    // A builder that ignored enum_values (or echoed its input) could
    // not produce these entries.
    let config = ToolConfig {
        functions: vec![FunctionDefinition {
            name: "f".to_owned(),
            description: "d".to_owned(),
            parameters: vec![param("p", "", "string", Some(vec!["only"]), false)],
        }],
    };
    let out = generate_openai_tools_config(&config).unwrap();
    let doc = parse(&out);
    let e = doc["tools"][0]["function"]["parameters"]["properties"]["p"]["enum"]
        .as_array()
        .unwrap();
    assert_eq!(e.len(), 1);
    assert_eq!(e[0], serde_json::Value::String("only".to_owned()));
}
