use freshfetch::assembly::Assembly;
use freshfetch::error::InfoError;
use freshfetch::fact::{Fact, Value};
use freshfetch::probe::{Probe, ProbeKind, PROBES};

fn fixed_order() -> Vec<ProbeKind> {
    vec![
        ProbeKind::User,
        ProbeKind::Host,
        ProbeKind::Kernel,
        ProbeKind::Distro,
        ProbeKind::Uptime,
        ProbeKind::PackageManagers,
        ProbeKind::Shell,
        ProbeKind::Resolution,
        ProbeKind::Wm,
        ProbeKind::De,
        ProbeKind::Cpu,
        ProbeKind::Gpu,
    ]
}

#[test]
fn the_order_names_every_kind_at_its_position() {
    let order = fixed_order();
    assert_eq!(order.len(), PROBES);
    for (i, kind) in order.iter().enumerate() {
        assert_eq!(ProbeKind::at(i), Some(*kind));
        assert_eq!(kind.position(), i);
    }
    assert_eq!(ProbeKind::at(PROBES), None);
    assert_eq!(ProbeKind::at(usize::MAX), None);
}

#[test]
fn every_dependency_comes_before_its_dependent() {
    for kind in fixed_order() {
        for on in kind.dependencies() {
            assert!(on.position() < kind.position());
        }
    }
}

#[test]
fn the_declared_dependencies() {
    assert_eq!(ProbeKind::Kernel.dependencies(), vec![]);
    assert_eq!(ProbeKind::User.dependencies(), vec![]);
    assert_eq!(ProbeKind::Host.dependencies(), vec![]);
    assert_eq!(ProbeKind::Resolution.dependencies(), vec![]);
    assert_eq!(ProbeKind::Distro.dependencies(), vec![ProbeKind::Kernel]);
    assert_eq!(ProbeKind::Uptime.dependencies(), vec![ProbeKind::Kernel]);
    assert_eq!(ProbeKind::PackageManagers.dependencies(), vec![ProbeKind::Kernel]);
    assert_eq!(ProbeKind::Shell.dependencies(), vec![ProbeKind::Kernel]);
    assert_eq!(ProbeKind::Wm.dependencies(), vec![ProbeKind::Kernel]);
    assert_eq!(ProbeKind::Cpu.dependencies(), vec![ProbeKind::Kernel]);
    assert_eq!(ProbeKind::Gpu.dependencies(), vec![ProbeKind::Kernel]);
    assert_eq!(ProbeKind::De.dependencies(), vec![ProbeKind::Kernel, ProbeKind::Distro]);
}

#[test]
fn the_assembly_asks_for_the_probes_in_order() {
    let mut assembly = Assembly::new();
    for kind in fixed_order() {
        assert_eq!(assembly.pending(), Some(kind));
        for on in kind.dependencies() {
            assert!(assembly.probe(on).is_some());
        }
        assert!(assembly.probe(kind).is_none());
        assert_eq!(assembly.install(Probe::absent(kind)), Ok(()));
        assert_eq!(assembly.probe(kind), Some(&Probe::absent(kind)));
    }
    assert_eq!(assembly.pending(), None);
}

#[test]
fn a_probe_out_of_turn_is_refused() {
    let mut assembly = Assembly::new();
    assert_eq!(
        assembly.install(Probe::absent(ProbeKind::Distro)),
        Err(InfoError::OutOfOrder { expected: Some(ProbeKind::User), found: ProbeKind::Distro })
    );
    assert_eq!(assembly.pending(), Some(ProbeKind::User));
    assert_eq!(assembly.install(Probe::absent(ProbeKind::User)), Ok(()));
    assert_eq!(
        assembly.install(Probe::absent(ProbeKind::User)),
        Err(InfoError::OutOfOrder { expected: Some(ProbeKind::Host), found: ProbeKind::User })
    );
    assert_eq!(assembly.pending(), Some(ProbeKind::Host));
}

#[test]
fn a_dependent_cannot_go_in_before_its_dependency() {
    let mut assembly = Assembly::new();
    assert_eq!(assembly.install(Probe::absent(ProbeKind::User)), Ok(()));
    assert_eq!(assembly.install(Probe::absent(ProbeKind::Host)), Ok(()));
    assert!(assembly.install(Probe::absent(ProbeKind::De)).is_err());
    assert!(assembly.install(Probe::absent(ProbeKind::Distro)).is_err());
    assert!(assembly.probe(ProbeKind::Kernel).is_none());
    assert_eq!(assembly.install(Probe::absent(ProbeKind::Kernel)), Ok(()));
    assert_eq!(assembly.install(Probe::absent(ProbeKind::Distro)), Ok(()));
}

#[test]
fn a_full_assembly_takes_no_more() {
    let mut assembly = Assembly::new();
    for kind in fixed_order() {
        assert_eq!(assembly.install(Probe::absent(kind)), Ok(()));
    }
    assert_eq!(
        assembly.install(Probe::absent(ProbeKind::Gpu)),
        Err(InfoError::OutOfOrder { expected: None, found: ProbeKind::Gpu })
    );
}

#[test]
fn finish_wants_every_probe() {
    let mut assembly = Assembly::new();
    assert_eq!(assembly.install(Probe::absent(ProbeKind::User)), Ok(()));
    assert_eq!(assembly.finish(), Err(InfoError::Incomplete { missing: ProbeKind::Host }));
    let mut assembly = Assembly::new();
    for kind in fixed_order() {
        assert_eq!(assembly.install(Probe::absent(kind)), Ok(()));
    }
    let probes = assembly.finish().unwrap();
    assert_eq!(probes.len(), PROBES);
    for (probe, kind) in probes.iter().zip(fixed_order()) {
        assert_eq!(probe.kind, kind);
    }
}

#[test]
fn a_present_probe_holds_its_facts() {
    let facts = vec![Fact { key: String::from("kernel.name"), value: Value::Text(String::from("Linux")) }];
    let probe = Probe::present(ProbeKind::Kernel, facts);
    assert_eq!(probe.kind, ProbeKind::Kernel);
    assert_eq!(
        probe.facts,
        Some(vec![Fact { key: String::from("kernel.name"), value: Value::Text(String::from("Linux")) }])
    );
    assert_eq!(Probe::absent(ProbeKind::Gpu).facts, None);
}
