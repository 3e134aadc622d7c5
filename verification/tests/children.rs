use process_registry::registry::ProcessRegistry;
use process_registry::termination::{KillAction, KillReport, KillState};
use std::sync::{Arc, Mutex};
use std::time::Duration;
use tokio::process::{Child, Command};
use tokio::runtime::{Builder, Runtime};

fn runtime() -> Runtime {
    Builder::new_current_thread().enable_all().build().unwrap()
}

fn spawn(program: &str, arg: Option<&str>) -> Child {
    let mut command = Command::new(program);
    if let Some(arg) = arg {
        command.arg(arg);
    }
    command.kill_on_drop(true);
    command.spawn().unwrap()
}

fn register(registry: &mut ProcessRegistry, run_id: i64, child: Child) {
    let pid = child.id().unwrap_or(0);
    registry.register_process(
        run_id,
        1,
        String::from("agent"),
        pid,
        String::from("/work"),
        String::from("task"),
        String::from("model"),
        child,
    );
}

fn pause(rt: &Runtime, millis: u64) {
    rt.block_on(tokio::time::sleep(Duration::from_millis(millis)));
}

fn wait_until_exited(rt: &Runtime, registry: &mut ProcessRegistry, run_id: i64) {
    for _ in 0..100 {
        if !registry.is_process_running(run_id) {
            return;
        }
        pause(rt, 50);
    }
    panic!("the child did not exit");
}

#[test]
fn running_child_is_reported_running() {
    let rt = runtime();
    let _guard = rt.enter();
    let mut registry = ProcessRegistry::new();
    register(&mut registry, 1, spawn("sleep", Some("30")));
    assert!(registry.is_process_running(1));
    assert!(registry.is_process_running(1));
    assert!(registry.get_process(1).is_some());
}

#[test]
fn exited_child_is_reported_once_and_reclaimed() {
    let rt = runtime();
    let _guard = rt.enter();
    let mut registry = ProcessRegistry::new();
    register(&mut registry, 1, spawn("true", None));
    wait_until_exited(&rt, &mut registry, 1);
    assert!(!registry.is_process_running(1));
    assert!(registry.get_process(1).is_some());
}

#[test]
fn cleanup_removes_the_two_exited_of_three() {
    let rt = runtime();
    let _guard = rt.enter();
    let mut registry = ProcessRegistry::new();
    let mut first = spawn("true", None);
    let mut second = spawn("true", None);
    for _ in 0..100 {
        let a = first.try_wait().unwrap().is_some();
        let b = second.try_wait().unwrap().is_some();
        if a && b {
            break;
        }
        pause(&rt, 50);
    }
    register(&mut registry, 1, first);
    register(&mut registry, 2, spawn("sleep", Some("30")));
    register(&mut registry, 3, second);
    let mut removed = registry.cleanup_finished_processes();
    removed.sort();
    assert_eq!(removed, vec![1, 3]);
    assert!(registry.get_process(1).is_none());
    assert!(registry.get_process(3).is_none());
    assert_eq!(registry.get_process(2).unwrap().run_id, 2);
    assert_eq!(registry.run_ids(), vec![2]);
}

#[test]
fn kill_of_exited_child_is_true_and_removes_it() {
    let rt = runtime();
    let _guard = rt.enter();
    let mut registry = ProcessRegistry::new();
    let mut child = spawn("true", None);
    for _ in 0..100 {
        if child.try_wait().unwrap().is_some() {
            break;
        }
        pause(&rt, 50);
    }
    register(&mut registry, 5, child);
    let (state, action) = registry.kill_process(5);
    assert_eq!(action, KillAction::Finish(true));
    assert_eq!(state, KillState::Exited);
    assert!(registry.get_process(5).is_none());
}

#[test]
fn kill_of_responsive_child_ends_true_within_bound() {
    let rt = runtime();
    let _guard = rt.enter();
    let mut registry = ProcessRegistry::new();
    register(&mut registry, 5, spawn("sleep", Some("30")));
    let (mut state, mut action) = registry.kill_process(5);
    let mut sleeps = 0;
    loop {
        match action {
            KillAction::Finish(result) => {
                assert!(result);
                break;
            }
            KillAction::Sleep => {
                pause(&rt, 100);
                sleeps += 1;
                let next = registry.resume_kill(5, state, KillReport::Slept);
                state = next.0;
                action = next.1;
            }
            other => panic!("unexpected action {:?}", other),
        }
    }
    assert!(sleeps < 50);
    assert_eq!(state, KillState::Exited);
    assert!(registry.get_process(5).is_none());
}

#[test]
fn concurrent_producers_do_not_mix() {
    let rt = Builder::new_multi_thread().worker_threads(2).enable_all().build().unwrap();
    let mut registry = ProcessRegistry::new();
    for run_id in [1, 2] {
        registry.register_sidecar_process(
            run_id,
            1,
            String::from("agent"),
            0,
            String::from("/work"),
            String::from("task"),
            String::from("model"),
        );
    }
    let shared = Arc::new(Mutex::new(registry));
    let mut producers = Vec::new();
    for run_id in [1i64, 2i64] {
        let shared = Arc::clone(&shared);
        producers.push(rt.spawn(async move {
            for i in 0..400 {
                let chunk = format!("run {} chunk {}", run_id, i);
                shared.lock().unwrap().append_live_output(run_id, &chunk);
                if i % 16 == 0 {
                    tokio::task::yield_now().await;
                }
            }
        }));
    }
    for producer in producers {
        rt.block_on(producer).unwrap();
    }
    let registry = shared.lock().unwrap();
    for run_id in [1i64, 2i64] {
        let mut expected = String::new();
        for i in 0..400 {
            expected.push_str(&format!("run {} chunk {}\n", run_id, i));
        }
        assert_eq!(registry.get_live_output(run_id), expected);
        assert_eq!(registry.get_buffer_stats(run_id), Some((400, expected.len())));
    }
}
