use lambdo::aggregate::{
    parse_response, AggregateError, ExecutionResponse, ExecutionStepResult, RunResponse,
};
use lambdo::model::{CodeReturn, FileModel};
use lambdo::net::AddressPool;
use lambdo::vmm::{
    end_attempt, vmm_settings, AttemptOutcome, Error, GuestInet, Teardown, VMMOpts,
};
use std::path::PathBuf;

fn step(stdout: Option<&str>, stderr: &str, exit_code: i64) -> ExecutionStepResult {
    ExecutionStepResult {
        stdout: stdout.map(|s| s.to_string()),
        stderr: stderr.to_string(),
        exit_code,
    }
}

fn response(steps: Vec<ExecutionStepResult>) -> ExecutionResponse {
    ExecutionResponse { id: "r".to_string(), steps }
}

#[test]
fn last_step_exit_code_wins() {
    let r = response(vec![step(Some("a"), "x", 0), step(None, "y", 0), step(Some("b"), "", 2)]);
    let out = parse_response(&r, 3).unwrap();
    assert_eq!(out.status, 2);
    assert_eq!(out.stdout, "ab");
    assert_eq!(out.stderr, "xy");
}

#[test]
fn last_step_success_hides_earlier_failure() {
    let r = response(vec![step(Some("1"), "boom", 7), step(Some("2"), "", 0)]);
    let out = parse_response(&r, 2).unwrap();
    assert_eq!(out.status, 0);
    assert_eq!(out.stdout, "12");
    assert_eq!(out.stderr, "boom");
}

#[test]
fn aggregation_errors() {
    let r = response(vec![step(None, "", 0)]);
    assert!(matches!(parse_response(&r, 2), Err(AggregateError::StepCountMismatch)));
    assert!(matches!(parse_response(&response(vec![]), 0), Err(AggregateError::NoSteps)));
    let big = response(vec![step(None, "", 1i64 << 40)]);
    assert!(matches!(parse_response(&big, 1), Err(AggregateError::InvalidExitCode)));
    let low = response(vec![step(None, "", -(1i64 << 31))]);
    assert_eq!(parse_response(&low, 1).unwrap().status, i32::MIN);
}

#[test]
fn internal_error_result() {
    let r = RunResponse::internal_error();
    assert_eq!(r.status, 1);
    assert_eq!(r.stdout, "");
    assert_eq!(r.stderr, "Internal server error");
}

#[test]
fn empty_pool_is_exhausted() {
    let mut pool = AddressPool::new(0x0A000002, 0, 24, 0x0A000001);
    assert!(matches!(pool.provision(), Err(Error::NoIPAvalaible)));
    assert!(pool.in_use.is_empty());
}

#[test]
fn full_pool_is_exhausted_and_unchanged() {
    let mut pool = AddressPool::new(0x0A000002, 2, 24, 0x0A000001);
    let a = pool.provision().unwrap();
    let b = pool.provision().unwrap();
    assert_eq!((a.slot, b.slot), (0, 1));
    assert_eq!(a.ip, 0x0A000002);
    assert_eq!(b.ip, 0x0A000003);
    assert_eq!(a.tap, "tap0");
    assert_eq!(b.tap, "tap1");
    assert_ne!(a.tap, b.tap);
    assert_eq!(b.gateway, 0x0A000001);
    assert!(matches!(pool.provision(), Err(Error::NoIPAvalaible)));
    assert_eq!(pool.in_use, vec![true, true]);
    pool.release(&a);
    let c = pool.provision().unwrap();
    assert_eq!(c.slot, 0);
    assert_eq!(c.tap, "tap0");
}

#[test]
fn every_outcome_releases_the_lease() {
    let outcomes = [
        AttemptOutcome::Completed,
        AttemptOutcome::AgentRejected,
        AttemptOutcome::AgentTimedOut,
        AttemptOutcome::VmmFailed,
    ];
    for outcome in outcomes {
        let mut pool = AddressPool::new(100, 3, 24, 1);
        let lease = pool.provision().unwrap();
        assert_eq!(pool.in_use, vec![true, false, false]);
        let plan = end_attempt(&mut pool, lease, outcome);
        assert_eq!(pool.in_use, vec![false, false, false]);
        assert_eq!(plan.last(), Some(&Teardown::ReleaseLease));
        if outcome == AttemptOutcome::VmmFailed {
            assert_eq!(plan, vec![Teardown::ReleaseLease]);
        } else {
            assert_eq!(
                plan,
                vec![Teardown::CloseChannel, Teardown::TerminateVm, Teardown::ReleaseLease]
            );
        }
    }
}

fn opts(tap: Option<&str>, ip: Option<GuestInet>) -> VMMOpts {
    VMMOpts {
        kernel: "/boot/vmlinux".to_string(),
        cpus: 1,
        memory: 512,
        console: None,
        socket: Some("/tmp/agent.sock".to_string()),
        initramfs: Some("/img/node.img".to_string()),
        tap: tap.map(|t| t.to_string()),
        ip,
        gateway: Some("10.0.0.1".to_string()),
    }
}

#[test]
fn vmm_settings_render_the_address() {
    let s = vmm_settings(&opts(Some("tap3"), Some(GuestInet { addr: 0x0A000102, prefix: 24 })))
        .unwrap();
    assert_eq!(s.ip, "10.0.1.2/24");
    assert_eq!(s.tap, "tap3");
    assert_eq!(s.cpus, 1);
    assert_eq!(s.memory, 512);
    assert_eq!(s.socket.as_deref(), Some("/tmp/agent.sock"));
    let host = vmm_settings(&opts(Some("t"), Some(GuestInet { addr: 0xC0A80001, prefix: 32 })))
        .unwrap();
    assert_eq!(host.ip, "192.168.0.1");
}

#[test]
fn vmm_settings_refuse_incomplete_options() {
    let ip = Some(GuestInet { addr: 1, prefix: 24 });
    assert!(matches!(vmm_settings(&opts(None, ip)), Err(Error::VmmConfigure)));
    assert!(matches!(vmm_settings(&opts(Some("t"), None)), Err(Error::VmmConfigure)));
    let bad = Some(GuestInet { addr: 1, prefix: 33 });
    assert!(matches!(vmm_settings(&opts(Some("t"), bad)), Err(Error::VmmConfigure)));
}

#[test]
fn options_for_a_leased_guest() {
    let mut pool = AddressPool::new(0x0A000005, 4, 16, 0x0A000001);
    let lease = pool.provision().unwrap();
    let o = VMMOpts::for_guest(
        &"/k".to_string(),
        2,
        256,
        &None,
        &"/i".to_string(),
        &"/s".to_string(),
        &lease,
    );
    assert_eq!(o.gateway.as_deref(), Some("10.0.0.1"));
    assert_eq!(o.tap.as_deref(), Some("tap0"));
    assert_eq!(o.ip, Some(GuestInet { addr: 0x0A000005, prefix: 16 }));
    let s = vmm_settings(&o).unwrap();
    assert_eq!(s.ip, "10.0.0.5/16");
}

#[test]
fn agent_models_keep_their_fields() {
    let f = FileModel::new(PathBuf::from("/code"), "main.py".to_string(), "print()".to_string());
    assert_eq!(f.path, PathBuf::from("/code"));
    assert_eq!(f.file_name, "main.py");
    assert_eq!(f.content, "print()");
    let c = CodeReturn::new("out".to_string(), "err".to_string(), -1);
    assert_eq!((c.stdout.as_str(), c.stderr.as_str(), c.exit_code), ("out", "err", -1));
}
