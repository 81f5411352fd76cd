//! The two schema builders: from a `ToolConfig` to the Gemini
//! function-declaration document and to the OpenAI function-tool
//! document, each pinned to a mathematical image of the JSON it emits.

use vstd::prelude::*;

use crate::json::lemma_seq_rep_push;
use crate::json::map_insert;
use crate::json::map_new;
use crate::json::obj_rep;
use crate::json::pretty_of;
use crate::json::seq_rep;
use crate::json::to_pretty_string;
use crate::json::upsert;
use crate::json::value_array;
use crate::json::value_object;
use crate::json::value_rep;
use crate::json::value_string;
use crate::json::JsonData;
use crate::model::ConfigView;
use crate::model::FunctionDefinition;
use crate::model::FunctionParameter;
use crate::model::FunctionView;
use crate::model::ParamView;
use crate::model::SerializationError;
use crate::model::ToolConfig;

verus! {

/// An enumeration of allowed values, as the JSON list of its strings.
pub open spec fn enum_list_of(vs: Seq<Seq<char>>) -> Seq<JsonData> {
    vs.map_values(|s: Seq<char>| JsonData::Str(s))
}

/// The entries of the property object of one parameter: its type and
/// description and, when an enumeration is given (even an empty one),
/// its `"enum"` list verbatim, in that order.
pub open spec fn property_entries(p: ParamView) -> Seq<(Seq<char>, JsonData)> {
    let base = seq![
        ("type"@, JsonData::Str(p.param_type)),
        ("description"@, JsonData::Str(p.description)),
    ];
    match p.enum_values {
        Some(vs) => base.push(("enum"@, JsonData::Arr(enum_list_of(vs)))),
        None => base,
    }
}

/// The property object of one parameter.
pub open spec fn property_of(p: ParamView) -> JsonData {
    JsonData::Obj(property_entries(p))
}

/// The `properties` entries of one function: keyed by parameter name,
/// in first-appearance order, a later duplicate name replacing the
/// earlier value in place.
pub open spec fn props_of(ps: Seq<ParamView>) -> Seq<(Seq<char>, JsonData)>
    decreases ps.len(),
{
    if ps.len() == 0 {
        Seq::empty()
    } else {
        upsert(props_of(ps.drop_last()), ps.last().name, property_of(ps.last()))
    }
}

/// The `required` list of one function: the name of every parameter
/// whose `required` flag is set, in parameter order (a duplicated name
/// appears once per flagged occurrence).
pub open spec fn required_of(ps: Seq<ParamView>) -> Seq<JsonData>
    decreases ps.len(),
{
    if ps.len() == 0 {
        Seq::empty()
    } else if ps.last().required {
        required_of(ps.drop_last()).push(JsonData::Str(ps.last().name))
    } else {
        required_of(ps.drop_last())
    }
}

/// The `parameters` object shared verbatim by both schemas.
pub open spec fn params_object(ps: Seq<ParamView>) -> JsonData {
    JsonData::Obj(
        seq![
            ("type"@, JsonData::Str("object"@)),
            ("properties"@, JsonData::Obj(props_of(ps))),
            ("required"@, JsonData::Arr(required_of(ps))),
        ],
    )
}

/// One function declaration: name, description, and the shared
/// `parameters` object.
pub open spec fn declaration_of(f: FunctionView) -> JsonData {
    JsonData::Obj(
        seq![
            ("name"@, JsonData::Str(f.name)),
            ("description"@, JsonData::Str(f.description)),
            ("parameters"@, params_object(f.parameters)),
        ],
    )
}

/// The declarations of all functions, in input order.
pub open spec fn declarations_of(fs: Seq<FunctionView>) -> Seq<JsonData> {
    fs.map_values(|f: FunctionView| declaration_of(f))
}

/// The whole Gemini document: declarations in input order under
/// `tools.functionDeclarations`.
pub open spec fn gemini_doc(c: ConfigView) -> JsonData {
    JsonData::Obj(
        seq![
            (
                "tools"@,
                JsonData::Obj(
                    seq![("functionDeclarations"@, JsonData::Arr(declarations_of(c.functions)))],
                ),
            ),
        ],
    )
}

/// One OpenAI tool: a `"type": "function"` envelope round the shared
/// declaration.
pub open spec fn tool_of(f: FunctionView) -> JsonData {
    JsonData::Obj(seq![("type"@, JsonData::Str("function"@)), ("function"@, declaration_of(f))])
}

/// The tools of all functions, in input order.
pub open spec fn tools_of(fs: Seq<FunctionView>) -> Seq<JsonData> {
    fs.map_values(|f: FunctionView| tool_of(f))
}

/// The whole OpenAI document: tools in input order under `tools`.
pub open spec fn openai_doc(c: ConfigView) -> JsonData {
    JsonData::Obj(seq![("tools"@, JsonData::Arr(tools_of(c.functions)))])
}

/// Taking one more string extends the enumeration list by its image.
proof fn lemma_enum_list_take_push(vs: Seq<Seq<char>>, j: int)
    requires
        0 <= j < vs.len(),
    ensures
        enum_list_of(vs.take(j + 1)) == enum_list_of(vs.take(j)).push(JsonData::Str(vs[j])),
{
    assert(enum_list_of(vs.take(j + 1)) =~= enum_list_of(vs.take(j)).push(JsonData::Str(vs[j])));
}

/// Taking one more function extends the declaration list by its image.
proof fn lemma_declarations_take_push(fs: Seq<FunctionView>, i: int)
    requires
        0 <= i < fs.len(),
    ensures
        declarations_of(fs.take(i + 1)) == declarations_of(fs.take(i)).push(
            declaration_of(fs[i]),
        ),
{
    assert(declarations_of(fs.take(i + 1)) =~= declarations_of(fs.take(i)).push(
        declaration_of(fs[i]),
    ));
}

/// Taking one more function extends the tool list by its image.
proof fn lemma_tools_take_push(fs: Seq<FunctionView>, i: int)
    requires
        0 <= i < fs.len(),
    ensures
        tools_of(fs.take(i + 1)) == tools_of(fs.take(i)).push(tool_of(fs[i])),
{
    assert(tools_of(fs.take(i + 1)) =~= tools_of(fs.take(i)).push(tool_of(fs[i])));
}

/// The object keys both documents use are pairwise distinct where one
/// object holds more than one of them.
pub(crate) proof fn lemma_key_literals()
    ensures
        "type"@ != "description"@,
        "type"@ != "enum"@,
        "description"@ != "enum"@,
        "type"@ != "properties"@,
        "type"@ != "required"@,
        "properties"@ != "required"@,
        "name"@ != "description"@,
        "name"@ != "parameters"@,
        "description"@ != "parameters"@,
        "type"@ != "function"@,
{
    reveal_strlit("type");
    reveal_strlit("description");
    reveal_strlit("enum");
    reveal_strlit("properties");
    reveal_strlit("required");
    reveal_strlit("name");
    reveal_strlit("parameters");
    reveal_strlit("function");
    assert("type"@.len() == 4);
    assert("description"@.len() == 11);
    assert("enum"@.len() == 4);
    assert("properties"@.len() == 10);
    assert("required"@.len() == 8);
    assert("name"@.len() == 4);
    assert("parameters"@.len() == 10);
    assert("function"@.len() == 8);
    assert("type"@[0] == 't');
    assert("enum"@[0] == 'e');
    assert("name"@[0] == 'n');
    assert("properties"@[0] == 'p');
    assert("parameters"@[1] == 'a');
    assert("properties"@[1] == 'r');
}

/// The property object of one parameter, built as a JSON value.
fn build_property(p: &FunctionParameter) -> (r: serde_json::Value)
    ensures
        value_rep(r) == property_of(p@),
{
    proof {
        lemma_key_literals();
    }
    let mut entry = map_new();
    map_insert(&mut entry, "type".to_owned(), value_string(p.param_type.clone()));
    map_insert(&mut entry, "description".to_owned(), value_string(p.description.clone()));
    proof {
        assert(obj_rep(entry) =~= seq![
            ("type"@, JsonData::Str(p.param_type@)),
            ("description"@, JsonData::Str(p.description@)),
        ]);
    }
    match &p.enum_values {
        Some(vs) => {
            let ghost evs = vs.deep_view();
            let mut items: Vec<serde_json::Value> = Vec::new();
            let mut j: usize = 0;
            while j < vs.len()
                invariant
                    j <= vs.len(),
                    evs == vs.deep_view(),
                    seq_rep(items@) == enum_list_of(evs.take(j as int)),
                decreases vs.len() - j,
            {
                proof {
                    assert(seq_rep(items@).len() == items@.len());
                    assert(enum_list_of(evs.take(j as int)).len() == j as int);
                }
                let ghost pre = items@;
                items.push(value_string(vs[j].clone()));
                proof {
                    assert(items@ == pre.push(items@.last()));
                    lemma_seq_rep_push(pre, items@.last());
                    lemma_enum_list_take_push(evs, j as int);
                    assert(evs[j as int] == vs@[j as int]@);
                    assert(seq_rep(items@) == enum_list_of(evs.take(j as int + 1)));
                }
                j += 1;
            }
            proof {
                assert(evs.take(vs@.len() as int) =~= evs);
            }
            map_insert(&mut entry, "enum".to_owned(), value_array(items));
            proof {
                assert(obj_rep(entry) =~= seq![
                    ("type"@, JsonData::Str(p.param_type@)),
                    ("description"@, JsonData::Str(p.description@)),
                ].push(("enum"@, JsonData::Arr(enum_list_of(evs)))));
            }
            value_object(entry)
        },
        None => value_object(entry),
    }
}

/// The per-parameter mapping shared by both builders: the `properties`
/// map and the `required` list of one function.
fn build_parameters(params: &Vec<FunctionParameter>) -> (r: (
    serde_json::Map<String, serde_json::Value>,
    Vec<serde_json::Value>,
))
    ensures
        obj_rep(r.0) == props_of(params.deep_view()),
        seq_rep(r.1@) == required_of(params.deep_view()),
{
    let ghost dv = params.deep_view();
    let mut props = map_new();
    let mut required: Vec<serde_json::Value> = Vec::new();
    let mut i: usize = 0;
    while i < params.len()
        invariant
            i <= params.len(),
            dv == params.deep_view(),
            obj_rep(props) == props_of(dv.take(i as int)),
            seq_rep(required@) == required_of(dv.take(i as int)),
        decreases params.len() - i,
    {
        proof {
            assert(dv.take(i as int + 1).drop_last() =~= dv.take(i as int));
            assert(dv.take(i as int + 1).last() == dv[i as int]);
        }
        let p = &params[i];
        let prop = build_property(p);
        map_insert(&mut props, p.name.clone(), prop);
        proof {
            assert(obj_rep(props) == props_of(dv.take(i as int + 1)));
        }
        if p.required {
            required.push(value_string(p.name.clone()));
            proof {
                assert(seq_rep(required@) =~~= required_of(dv.take(i as int + 1)));
            }
        }
        i += 1;
    }
    proof {
        assert(dv.take(params@.len() as int) =~= dv);
    }
    (props, required)
}

/// One function declaration, built as a JSON value.
fn build_declaration(f: &FunctionDefinition) -> (r: serde_json::Value)
    ensures
        value_rep(r) == declaration_of(f@),
{
    proof {
        lemma_key_literals();
    }
    let (props, required) = build_parameters(&f.parameters);
    let mut pobj = map_new();
    map_insert(&mut pobj, "type".to_owned(), value_string("object".to_owned()));
    map_insert(&mut pobj, "properties".to_owned(), value_object(props));
    map_insert(&mut pobj, "required".to_owned(), value_array(required));
    proof {
        assert(obj_rep(pobj) =~= seq![
            ("type"@, JsonData::Str("object"@)),
            ("properties"@, JsonData::Obj(props_of(f.parameters.deep_view()))),
            ("required"@, JsonData::Arr(required_of(f.parameters.deep_view()))),
        ]);
    }
    let mut decl = map_new();
    map_insert(&mut decl, "name".to_owned(), value_string(f.name.clone()));
    map_insert(&mut decl, "description".to_owned(), value_string(f.description.clone()));
    map_insert(&mut decl, "parameters".to_owned(), value_object(pobj));
    proof {
        assert(obj_rep(decl) =~= seq![
            ("name"@, JsonData::Str(f.name@)),
            ("description"@, JsonData::Str(f.description@)),
            ("parameters"@, params_object(f.parameters.deep_view())),
        ]);
    }
    value_object(decl)
}

/// Builds the Gemini configuration document for `config` and returns
/// it pretty-printed. It never fails: the reserved error is for inputs
/// the JSON encoder cannot represent, and none exist in this model.
pub fn generate_gemini_tools_config(config: &ToolConfig) -> (r: Result<String, SerializationError>)
    ensures
        r is Ok,
        r matches Ok(s) ==> s@ == pretty_of(gemini_doc(config@)),
{
    let ghost dv = config.functions.deep_view();
    let mut decls: Vec<serde_json::Value> = Vec::new();
    let mut i: usize = 0;
    while i < config.functions.len()
        invariant
            i <= config.functions.len(),
            dv == config.functions.deep_view(),
            seq_rep(decls@) == declarations_of(dv.take(i as int)),
        decreases config.functions.len() - i,
    {
        proof {
            assert(seq_rep(decls@).len() == decls@.len());
            assert(declarations_of(dv.take(i as int)).len() == i as int);
        }
        let ghost pre = decls@;
        let d = build_declaration(&config.functions[i]);
        decls.push(d);
        proof {
            assert(decls@ == pre.push(decls@.last()));
            lemma_seq_rep_push(pre, decls@.last());
            lemma_declarations_take_push(dv, i as int);
            assert(dv[i as int] == config.functions@[i as int]@);
            assert(seq_rep(decls@) == declarations_of(dv.take(i as int + 1)));
        }
        i += 1;
    }
    proof {
        assert(dv.take(config.functions@.len() as int) =~= dv);
    }
    let mut inner = map_new();
    map_insert(&mut inner, "functionDeclarations".to_owned(), value_array(decls));
    let mut top = map_new();
    map_insert(&mut top, "tools".to_owned(), value_object(inner));
    let doc = value_object(top);
    proof {
        assert(obj_rep(inner) =~= seq![
            ("functionDeclarations"@, JsonData::Arr(declarations_of(dv))),
        ]);
        assert(value_rep(doc) == gemini_doc(config@));
    }
    match to_pretty_string(&doc) {
        Ok(s) => Ok(s),
        Err(_) => Err(SerializationError),
    }
}

/// Builds the OpenAI configuration document for `config` and returns
/// it pretty-printed. It never fails: the reserved error is for inputs
/// the JSON encoder cannot represent, and none exist in this model.
pub fn generate_openai_tools_config(config: &ToolConfig) -> (r: Result<String, SerializationError>)
    ensures
        r is Ok,
        r matches Ok(s) ==> s@ == pretty_of(openai_doc(config@)),
{
    proof {
        lemma_key_literals();
    }
    let ghost dv = config.functions.deep_view();
    let mut tools: Vec<serde_json::Value> = Vec::new();
    let mut i: usize = 0;
    while i < config.functions.len()
        invariant
            i <= config.functions.len(),
            dv == config.functions.deep_view(),
            seq_rep(tools@) == tools_of(dv.take(i as int)),
        decreases config.functions.len() - i,
    {
        proof {
            lemma_key_literals();
            assert(seq_rep(tools@).len() == tools@.len());
            assert(tools_of(dv.take(i as int)).len() == i as int);
        }
        let d = build_declaration(&config.functions[i]);
        let mut envelope = map_new();
        map_insert(&mut envelope, "type".to_owned(), value_string("function".to_owned()));
        map_insert(&mut envelope, "function".to_owned(), d);
        proof {
            assert(obj_rep(envelope) =~= seq![
                ("type"@, JsonData::Str("function"@)),
                ("function"@, declaration_of(dv[i as int])),
            ]);
        }
        let ghost pre = tools@;
        tools.push(value_object(envelope));
        proof {
            assert(tools@ == pre.push(tools@.last()));
            lemma_seq_rep_push(pre, tools@.last());
            lemma_tools_take_push(dv, i as int);
            assert(dv[i as int] == config.functions@[i as int]@);
            assert(seq_rep(tools@) == tools_of(dv.take(i as int + 1)));
        }
        i += 1;
    }
    proof {
        assert(dv.take(config.functions@.len() as int) =~= dv);
    }
    let mut top = map_new();
    map_insert(&mut top, "tools".to_owned(), value_array(tools));
    let doc = value_object(top);
    proof {
        assert(obj_rep(top) =~= seq![("tools"@, JsonData::Arr(tools_of(dv)))]);
        assert(value_rep(doc) == openai_doc(config@));
    }
    match to_pretty_string(&doc) {
        Ok(s) => Ok(s),
        Err(_) => Err(SerializationError),
    }
}

} // verus!
