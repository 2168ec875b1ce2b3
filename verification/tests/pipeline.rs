use freshfetch::assembly::Assembly;
use freshfetch::context::Context;
use freshfetch::error::InfoError;
use freshfetch::fact::{Fact, Value};
use freshfetch::info::Info;
use freshfetch::inject::Inject;
use freshfetch::probe::{Probe, ProbeKind};
use freshfetch::template::{select, OverrideFile};

fn text(key: &str, value: &str) -> Fact {
    Fact { key: String::from(key), value: Value::Text(String::from(value)) }
}

fn construct(kind: ProbeKind) -> Probe {
    match kind {
        ProbeKind::User => Probe::present(kind, vec![text("user", "alice")]),
        ProbeKind::Host => Probe::present(kind, vec![text("host", "box")]),
        ProbeKind::Kernel => Probe::present(
            kind,
            vec![text("kernel.name", "Linux"), text("kernel.version", "6.1")],
        ),
        ProbeKind::Distro => Probe::present(kind, vec![text("distro.name", "Arch")]),
        ProbeKind::Uptime => Probe::present(
            kind,
            vec![Fact { key: String::from("uptime.days"), value: Value::Integer(12) }],
        ),
        ProbeKind::PackageManagers => Probe::present(kind, vec![]),
        ProbeKind::Shell => Probe::present(kind, vec![text("shell.name", "zsh")]),
        _ => Probe::absent(kind),
    }
}

fn assembled() -> Info {
    let mut assembly = Assembly::new();
    while let Some(kind) = assembly.pending() {
        assembly.install(construct(kind)).unwrap();
    }
    Info::new(assembly).unwrap()
}

#[test]
fn a_new_orchestrator_has_nothing_rendered() {
    let info = assembled();
    assert_eq!(info.rendered(), "");
    assert_eq!(info.width(), 0);
    assert_eq!(info.height(), 0);
    assert_eq!(info.context().template().writes().len(), 0);
    assert_eq!(info.probe(ProbeKind::Kernel).kind, ProbeKind::Kernel);
    assert_eq!(info.probe(ProbeKind::Gpu), &Probe::absent(ProbeKind::Gpu));
}

#[test]
fn an_incomplete_assembly_makes_no_orchestrator() {
    let mut assembly = Assembly::new();
    assembly.install(construct(ProbeKind::User)).unwrap();
    assembly.install(construct(ProbeKind::Host)).unwrap();
    assert!(matches!(
        Info::new(assembly),
        Err(InfoError::Incomplete { missing: ProbeKind::Kernel })
    ));
}

#[test]
fn prep_gathers_the_facts_of_every_probe() {
    let mut info = assembled();
    assert_eq!(info.prep(), Ok(()));
    let ctx = info.context();
    assert_eq!(ctx.template().get("user"), Some(&String::from("alice")));
    assert_eq!(ctx.template().get("host"), Some(&String::from("box")));
    assert_eq!(ctx.template().get("kernel.name"), Some(&String::from("Linux")));
    assert_eq!(ctx.environment().get("kernel_version"), Some(&String::from("6.1")));
    assert_eq!(ctx.script().get("distroName"), Some(&Value::Text(String::from("Arch"))));
    assert_eq!(ctx.script().get("uptimeDays"), Some(&Value::Integer(12)));
    assert_eq!(ctx.template().get("uptime.days"), Some(&String::from("12")));
}

#[test]
fn facts_are_gathered_in_the_fixed_order() {
    let mut info = assembled();
    info.prep().unwrap();
    let keys: Vec<&str> =
        info.context().template().writes().iter().map(|b| b.name.as_str()).collect();
    assert_eq!(
        keys,
        vec![
            "user",
            "host",
            "kernel.name",
            "kernel.version",
            "distro.name",
            "uptime.days",
            "shell.name"
        ]
    );
}

#[test]
fn absent_probes_add_no_key_and_fail_nothing() {
    let mut assembly = Assembly::new();
    while let Some(kind) = assembly.pending() {
        assembly.install(Probe::absent(kind)).unwrap();
    }
    let mut info = Info::new(assembly).unwrap();
    assert_eq!(info.prep(), Ok(()));
    assert_eq!(info.context().template().writes().len(), 0);
    assert_eq!(info.context().environment().writes().len(), 0);
    assert_eq!(info.context().script().writes().len(), 0);

    let mut probe = Probe::absent(ProbeKind::Resolution);
    assert_eq!(probe.prep(), Ok(()));
    let mut ctx = Context::new();
    ctx.set("kept", &Value::Integer(1));
    assert_eq!(probe.inject(&mut ctx), Ok(()));
    assert_eq!(ctx.template().writes().len(), 1);
    assert_eq!(ctx.template().get("kept"), Some(&String::from("1")));
}

#[test]
fn a_present_probe_publishes_its_facts() {
    let mut probe = construct(ProbeKind::Kernel);
    assert_eq!(probe.prep(), Ok(()));
    let mut ctx = Context::new();
    assert_eq!(probe.inject(&mut ctx), Ok(()));
    assert_eq!(ctx.template().get("kernel.name"), Some(&String::from("Linux")));
    assert_eq!(ctx.script().get("kernelVersion"), Some(&Value::Text(String::from("6.1"))));
}

#[test]
fn one_pass_publishes_the_text_and_its_size() {
    let mut info = assembled();
    info.prep().unwrap();
    let template = select(OverrideFile::Missing, "XX\nX").unwrap();
    assert_eq!(info.render(Ok(template)), Ok(()));
    assert_eq!(info.rendered(), "XX\nX");
    assert_eq!(info.width(), 2);
    assert_eq!(info.height(), 2);

    let mut ctx = Context::new();
    assert_eq!(info.inject(&mut ctx), Ok(()));
    assert_eq!(ctx.template().get("info"), Some(&String::from("XX\nX")));
    assert_eq!(ctx.template().get("info.width"), Some(&String::from("2")));
    assert_eq!(ctx.template().get("info.height"), Some(&String::from("2")));
    assert_eq!(ctx.environment().get("info"), Some(&String::from("XX\nX")));
    assert_eq!(ctx.environment().get("info_width"), Some(&String::from("2")));
    assert_eq!(ctx.environment().get("info_height"), Some(&String::from("2")));
    assert_eq!(ctx.script().get("info"), Some(&Value::Text(String::from("XX\nX"))));
    assert_eq!(ctx.script().get("infoWidth"), Some(&Value::Integer(2)));
    assert_eq!(ctx.script().get("infoHeight"), Some(&Value::Integer(2)));

    let shown = format!(
        "W={} H={}",
        ctx.template().get("info.width").unwrap(),
        ctx.template().get("info.height").unwrap()
    );
    assert_eq!(shown, "W=2 H=2");
}

#[test]
fn the_rendered_text_keeps_its_control_sequences() {
    let mut info = assembled();
    assert_eq!(info.render(Ok(String::from("\x1b[1mbold\x1b[0m\nhi\n"))), Ok(()));
    assert_eq!(info.rendered(), "\x1b[1mbold\x1b[0m\nhi\n");
    assert_eq!(info.width(), 4);
    assert_eq!(info.height(), 3);
}

#[test]
fn a_failed_expansion_is_fatal_and_changes_nothing() {
    let mut info = assembled();
    info.render(Ok(String::from("first"))).unwrap();
    assert_eq!(
        info.render(Err(String::from("unclosed tag"))),
        Err(InfoError::Render { cause: String::from("unclosed tag") })
    );
    assert_eq!(info.rendered(), "first");
    assert_eq!(info.width(), 5);
    assert_eq!(info.height(), 1);
}

#[test]
fn inject_before_render_publishes_the_empty_text() {
    let info = assembled();
    let mut ctx = Context::new();
    assert_eq!(info.inject(&mut ctx), Ok(()));
    assert_eq!(ctx.template().get("info"), Some(&String::new()));
    assert_eq!(ctx.template().get("info.width"), Some(&String::from("0")));
    assert_eq!(ctx.script().get("infoHeight"), Some(&Value::Integer(0)));
}

#[test]
fn a_rejected_global_leaves_the_rest_of_the_context() {
    let mut info = assembled();
    info.prep().unwrap();
    info.reject("kernelName");
    assert_eq!(info.context().script().get("kernelName"), None);
    assert_eq!(info.context().script().get("kernelVersion"), Some(&Value::Text(String::from("6.1"))));
    assert_eq!(info.context().template().get("kernel.name"), Some(&String::from("Linux")));
}
