use bullang::ast::Rank;
use bullang::commands::{blueprint_listing, init_listing};
use bullang::init::{
    init, init_from_blueprint, parse_blueprint, rank_for_depth, step_failure, BlueprintNode, BlueprintResult,
    InitResult, Step, BULLANG_README,
};

fn describe(steps: &[Step]) -> Vec<String> {
    steps
        .iter()
        .map(|s| match s {
            Step::MakeDir(p) => format!("mkdir {}", p),
            Step::Write(p, c) => format!("write {} <{}>", p, c),
            Step::Fail(m) => format!("fail {}", m),
        })
        .collect()
}

#[test]
fn depth_maps_to_rank() {
    assert_eq!(rank_for_depth(1), Some(Rank::Skirmish));
    assert_eq!(rank_for_depth(2), Some(Rank::Tactic));
    assert_eq!(rank_for_depth(3), Some(Rank::Strategy));
    assert_eq!(rank_for_depth(6), Some(Rank::War));
    assert_eq!(rank_for_depth(0), None);
    assert_eq!(rank_for_depth(7), None);
}

#[test]
fn init_plans_a_chain_of_folders() {
    let plan = init("/p", "demo", 2, Some("rs"), &vec!["m.h".to_string()], false).unwrap();
    assert_eq!(plan.root, "/p/demo");
    assert_eq!(
        describe(&plan.steps),
        vec![
            "mkdir /p/demo".to_string(),
            "write /p/demo/inventory.bu <#rank: tactic;\n\n#lang: rs;\n\n#lib: m.h;\n>".to_string(),
            "mkdir /p/demo/skirmish_demo".to_string(),
            "write /p/demo/skirmish_demo/inventory.bu <#rank: skirmish;\n>".to_string(),
        ]
    );
}

#[test]
fn init_depth_beyond_six_is_a_full_chain() {
    let plan = init("p", "x", 9, None, &vec![], false).unwrap();
    assert_eq!(plan.steps.len(), 12);
    assert_eq!(describe(&plan.steps)[1], "write p/x/inventory.bu <#rank: war;\n>");
    assert_eq!(describe(&plan.steps)[2], "mkdir p/x/theater_x");
    assert_eq!(describe(&plan.steps)[11], "write p/x/theater_x/battle_x/strategy_x/tactic_x/skirmish_x/inventory.bu <#rank: skirmish;\n>");
}

#[test]
fn init_refuses_an_existing_root() {
    assert_eq!(
        init("/p", "demo", 3, None, &vec![], true).err().unwrap(),
        "'/p/demo' already exists. Choose a different name or remove the existing folder."
    );
}

#[test]
fn an_existing_root_is_refused_at_any_depth() {
    assert_eq!(
        init("/p", "demo", 0, None, &vec![], true).err().unwrap(),
        "'/p/demo' already exists. Choose a different name or remove the existing folder."
    );
}

#[test]
fn any_blueprint_deeper_than_six_is_too_deep() {
    let mut node = BlueprintNode::Entry { file: "m".to_string(), functions: vec!["f".to_string()] };
    for i in 0..257 {
        node = BlueprintNode::Folder { name: format!("f{}", i), children: vec![node] };
    }
    let plan = init_from_blueprint("p", "x", &vec![node], None, "", false).unwrap();
    assert_eq!(describe(&plan.steps), vec!["mkdir p/x".to_string(), "fail Blueprint tree is too deep (max 6 levels)".to_string()]);
}

#[test]
fn step_failures() {
    assert_eq!(step_failure(&Step::MakeDir("a/b".to_string()), "denied"), "Could not create 'a/b': denied");
    assert_eq!(step_failure(&Step::Write("a/x".to_string(), "c".to_string()), "full"), "Could not write 'a/x': full");
    assert_eq!(step_failure(&Step::Fail("stop".to_string()), "ignored"), "stop");
}

const BLUEPRINT: &str = "// layout\ncore:\n    engine:\n        math: add, sub\n\n    io: read;\n";

#[test]
fn parses_a_blueprint() {
    let nodes = parse_blueprint(BLUEPRINT).unwrap();
    assert_eq!(nodes.len(), 1);
    match &nodes[0] {
        BlueprintNode::Folder { name, children } => {
            assert_eq!(name, "core");
            assert_eq!(children.len(), 2);
            match &children[0] {
                BlueprintNode::Folder { name, children } => {
                    assert_eq!(name, "engine");
                    match &children[0] {
                        BlueprintNode::Entry { file, functions } => {
                            assert_eq!(file, "math");
                            assert_eq!(functions, &vec!["add".to_string(), "sub".to_string()]);
                        }
                        other => panic!("unexpected {:?}", other),
                    }
                }
                other => panic!("unexpected {:?}", other),
            }
            match &children[1] {
                BlueprintNode::Entry { file, functions } => {
                    assert_eq!(file, "io");
                    assert_eq!(functions, &vec!["read".to_string()]);
                }
                other => panic!("unexpected {:?}", other),
            }
        }
        other => panic!("unexpected {:?}", other),
    }
}

#[test]
fn blueprint_errors() {
    assert_eq!(
        parse_blueprint("a:\n  b:\n      c:\n").unwrap_err(),
        "line 3: unexpected indentation (expected 4 spaces, got 6): 'c:'"
    );
    assert_eq!(parse_blueprint(":\n").unwrap_err(), "line 1: empty folder name");
    assert_eq!(parse_blueprint(": f\n").unwrap_err(), "line 1: empty file name in entry");
    assert_eq!(
        parse_blueprint(" : f\n").unwrap_err(),
        "line 1: unexpected indentation (expected 0 spaces, got 1): ': f'"
    );
    assert_eq!(
        parse_blueprint("hello\n").unwrap_err(),
        "line 1: expected 'folder:' or 'filename: fn1, fn2' — got 'hello'"
    );
}

#[test]
fn scaffolds_from_a_blueprint() {
    let nodes = parse_blueprint(BLUEPRINT).unwrap();
    let plan = init_from_blueprint("/p", "demo", &nodes, Some("py"), BLUEPRINT, false).unwrap();
    assert_eq!(plan.root, "/p/demo");
    let d = describe(&plan.steps);
    assert_eq!(d.len(), 8);
    assert_eq!(d[0], "mkdir /p/demo");
    assert_eq!(d[1], "write /p/demo/inventory.bu <#rank: strategy;\n\n#lang: py;\n>");
    assert_eq!(d[2], "mkdir /p/demo/core");
    assert_eq!(d[3], "write /p/demo/core/inventory.bu <#rank: tactic;\n\nio: read;\n>");
    assert_eq!(d[4], "mkdir /p/demo/core/engine");
    assert_eq!(d[5], "write /p/demo/core/engine/inventory.bu <#rank: skirmish;\n\nmath: add, sub;\n>");
    assert_eq!(d[6], format!("write /p/demo/blueprint.bu <{}>", BLUEPRINT));
    assert_eq!(d[7], format!("write /p/demo/README.md <{}>", BULLANG_README));
}

#[test]
fn blueprint_of_entries_only_is_a_skirmish() {
    let nodes = parse_blueprint("math: add\n").unwrap();
    let plan = init_from_blueprint("p", "x", &nodes, None, "math: add\n", false).unwrap();
    assert_eq!(describe(&plan.steps)[1], "write p/x/inventory.bu <#rank: skirmish;\n\nmath: add;\n>");
    assert_eq!(init_from_blueprint("p", "x", &nodes, None, "", true).err().unwrap(), "'p/x' already exists.");
}

#[test]
fn blueprint_too_deep_fails() {
    let src = "a:\n b:\n  c:\n   d:\n    e:\n     f:\n      g:\n";
    let nodes = parse_blueprint(src).unwrap();
    let plan = init_from_blueprint("p", "x", &nodes, None, src, false).unwrap();
    assert_eq!(describe(&plan.steps), vec!["mkdir p/x".to_string(), "fail Blueprint tree is too deep (max 6 levels)".to_string()]);
}

#[test]
fn listings_after_scaffolding() {
    let r = InitResult {
        root: "/p/demo".to_string(),
        files_created: vec!["/p/demo/inventory.bu".to_string(), "/p/demo/skirmish_demo/inventory.bu".to_string()],
    };
    assert_eq!(
        init_listing(&r),
        vec![
            "created: /p/demo".to_string(),
            "".to_string(),
            "    inventory.bu (inventory)".to_string(),
            "  skirmish_demo/".to_string(),
            "      inventory.bu (inventory)".to_string(),
        ]
    );
    let b = BlueprintResult { root: "/p/demo".to_string(), files_created: vec!["/p/demo/blueprint.bu".to_string(), "/p/demo/README.md".to_string()] };
    assert_eq!(
        blueprint_listing(&b),
        vec![
            "created: /p/demo".to_string(),
            "".to_string(),
            "    blueprint.bu (blueprint — copied)".to_string(),
            "    README.md".to_string(),
        ]
    );
}

#[test]
fn blank_comment_lines_and_semicolons_do_not_change_a_blueprint() {
    let plain = parse_blueprint("core:\n    math: add, sub\n    io: read\n").unwrap();
    let noisy = parse_blueprint("// top\ncore:\n\n    // inner\n   \n    math: add, sub;\n    io: read;\n\n").unwrap();
    assert_eq!(format!("{:?}", plain), format!("{:?}", noisy));
}
