use std::cell::Cell;
use std::rc::Rc;
use std::sync::mpsc::channel;

use home_controller::context::Context;
use home_controller::control::controller::Controller;
use home_controller::control::io::IO;
use home_controller::control::message::{Action, Message, System};
use home_controller::control::worker::{Missing, Outcome, Phase, Worker};
use home_controller::failure::Failure;
use home_controller::state::device::gateway::Gateway;
use home_controller::state::device::light::Light;
use home_controller::state::device::Device;
use home_controller::state::State;

type Step = (State, IO<u32>, Result<(), Failure>);
type Job = Box<dyn FnOnce(State, IO<u32>) -> Step>;

fn handle() -> Controller<u32> {
    Controller::attach(channel().0)
}

fn context() -> Context {
    Context { gateway: Gateway::Web { address: "10.0.0.2".to_string() } }
}

fn set_context() -> Message<Job> {
    Message::System(System::SetContext(context()))
}

fn action(job: Job) -> Message<Job> {
    Message::Action(Action::Call(job))
}

fn inventory() -> State {
    let mut state = State::new();
    assert!(state.add_device(17, Device::Light(Light::new(false, 0))));
    assert!(state.name_device("lamp1".to_string(), 17));
    assert!(state.place("kitchen".to_string(), 17));
    state
}

fn brightness(state: &State, id: u64) -> u8 {
    match state.device(id) {
        Some(Device::Light(light)) => light.brightness(),
        None => panic!("no device {}", id),
    }
}

fn set_level(level: u8) -> Job {
    Box::new(move |mut state: State, io: IO<u32>| {
        let mut light = Light::new(true, 0);
        light.set_brightness(level);
        let done = state.set_device(17, Device::Light(light));
        assert!(done);
        (state, io, Ok(()))
    })
}

fn add_level(step: u8) -> Job {
    Box::new(move |mut state: State, io: IO<u32>| {
        let now = brightness(&state, 17);
        let mut light = Light::new(true, 0);
        light.set_brightness(now + step);
        state.set_device(17, Device::Light(light));
        (state, io, Ok(()))
    })
}

fn double_level() -> Job {
    Box::new(move |mut state: State, io: IO<u32>| {
        let now = brightness(&state, 17);
        let mut light = Light::new(true, 0);
        light.set_brightness(now * 2);
        state.set_device(17, Device::Light(light));
        (state, io, Ok(()))
    })
}

fn ready_worker() -> Worker<u32> {
    let mut worker: Worker<u32> = Worker::new();
    assert!(matches!(worker.handle(&handle(), set_context()), Outcome::ContextSet));
    assert!(worker.install(Ok(inventory())));
    assert_eq!(worker.phase(), Phase::Ready);
    worker
}

#[test]
fn new_worker_is_uninitialized() {
    let worker: Worker<u32> = Worker::new();
    assert_eq!(worker.phase(), Phase::Uninitialized);
    assert!(worker.state().is_none());
}

#[test]
fn context_before_inventory_reaches_ready() {
    let mut worker: Worker<u32> = Worker::new();
    assert!(matches!(worker.handle(&handle(), set_context()), Outcome::ContextSet));
    assert_eq!(worker.phase(), Phase::PartiallyReady);
    let reload: Message<Job> = Message::System(System::Reload("inventory.json".to_string()));
    match worker.handle(&handle(), reload) {
        Outcome::Load(path) => assert_eq!(path, "inventory.json"),
        _ => panic!("a reload asks for a load"),
    }
    assert_eq!(worker.phase(), Phase::PartiallyReady);
    assert!(worker.install(Ok(inventory())));
    assert_eq!(worker.phase(), Phase::Ready);
    let found = worker.read(|state: State, io: IO<u32>| {
        let id = state.lookup_name(&"lamp1".to_string());
        (state, io, id)
    });
    assert_eq!(found, Some(Some(17)));
}

#[test]
fn inventory_before_context_reaches_ready() {
    let mut worker: Worker<u32> = Worker::new();
    assert!(worker.install(Ok(inventory())));
    assert_eq!(worker.phase(), Phase::PartiallyReady);
    assert!(matches!(worker.handle(&handle(), set_context()), Outcome::ContextSet));
    assert_eq!(worker.phase(), Phase::Ready);
}

#[test]
fn installed_context_holds_the_handle() {
    let (sender, receiver) = channel::<u32>();
    let controller = Controller::attach(sender);
    let mut worker: Worker<u32> = Worker::new();
    assert!(matches!(worker.handle(&controller, set_context()), Outcome::ContextSet));
    assert!(worker.install(Ok(inventory())));
    let seen = worker.read(|state: State, io: IO<u32>| {
        let sent = io.controller.send_msg(11).is_ok();
        let web = matches!(io.context.gateway, Gateway::Web { .. });
        (state, io, (sent, web))
    });
    assert_eq!(seen, Some((true, true)));
    assert_eq!(receiver.try_recv(), Ok(11));
}

#[test]
fn action_before_installation_never_runs() {
    let ran = Rc::new(Cell::new(0u32));
    let counter = ran.clone();
    let mut worker: Worker<u32> = Worker::new();
    let outcome = worker.handle(
        &handle(),
        action(Box::new(move |mut state: State, io: IO<u32>| {
            counter.set(counter.get() + 1);
            state.add_device(99, Device::Light(Light::new(true, 1)));
            (state, io, Ok(()))
        })),
    );
    assert!(matches!(outcome, Outcome::Discarded(Missing::State)));
    assert_eq!(worker.phase(), Phase::Uninitialized);
    assert!(matches!(worker.handle(&handle(), set_context()), Outcome::ContextSet));
    assert!(worker.install(Ok(inventory())));
    let found = worker.read(|state: State, io: IO<u32>| {
        let there = state.device(99).is_some();
        (state, io, there)
    });
    assert_eq!(found, Some(false));
    assert_eq!(ran.get(), 0);
}

#[test]
fn action_without_context_is_discarded() {
    let ran = Rc::new(Cell::new(false));
    let flag = ran.clone();
    let mut worker: Worker<u32> = Worker::new();
    assert!(worker.install(Ok(inventory())));
    let outcome = worker.handle(
        &handle(),
        action(Box::new(move |state: State, io: IO<u32>| {
            flag.set(true);
            (state, io, Ok(()))
        })),
    );
    assert!(matches!(outcome, Outcome::Discarded(Missing::Context)));
    assert!(!ran.get());
    assert_eq!(worker.phase(), Phase::PartiallyReady);
}

#[test]
fn action_without_inventory_is_discarded() {
    let mut worker: Worker<u32> = Worker::new();
    assert!(matches!(worker.handle(&handle(), set_context()), Outcome::ContextSet));
    let outcome = worker.handle(&handle(), action(set_level(5)));
    assert!(matches!(outcome, Outcome::Discarded(Missing::State)));
    assert!(worker.state().is_none());
}

#[test]
fn read_on_unready_worker_gives_nothing() {
    let mut worker: Worker<u32> = Worker::new();
    let answer = worker.read(|state: State, io: IO<u32>| (state, io, 1u8));
    assert_eq!(answer, None);
    assert_eq!(worker.phase(), Phase::Uninitialized);
}

#[test]
fn ready_worker_runs_an_action() {
    let mut worker = ready_worker();
    let outcome = worker.handle(&handle(), action(set_level(40)));
    assert!(matches!(outcome, Outcome::Executed(Ok(()))));
    assert_eq!(brightness(worker.state().unwrap(), 17), 40);
    assert_eq!(worker.phase(), Phase::Ready);
}

#[test]
fn failed_action_is_reported_and_not_fatal() {
    let mut worker = ready_worker();
    let outcome = worker.handle(
        &handle(),
        action(Box::new(|state: State, io: IO<u32>| {
            (state, io, Err(Failure::new("lamp unreachable".to_string())))
        })),
    );
    match outcome {
        Outcome::Executed(Err(failure)) => assert_eq!(failure.reason, "lamp unreachable"),
        _ => panic!("the action ran and failed"),
    }
    assert_eq!(worker.phase(), Phase::Ready);
    assert!(matches!(worker.handle(&handle(), action(set_level(3))), Outcome::Executed(Ok(()))));
    assert_eq!(brightness(worker.state().unwrap(), 17), 3);
}

#[test]
fn actions_take_effect_in_submission_order() {
    let mut worker = ready_worker();
    let mut inbox: Vec<Message<Job>> =
        vec![action(set_level(10)), action(add_level(5)), action(double_level())];
    let journal = worker.inner_loop(&handle(), &mut inbox);
    assert_eq!(journal.len(), 3);
    assert!(journal.iter().all(|outcome| matches!(outcome, Outcome::Executed(Ok(())))));
    assert!(inbox.is_empty());
    assert_eq!(brightness(worker.state().unwrap(), 17), 30);

    let mut worker = ready_worker();
    let mut inbox: Vec<Message<Job>> =
        vec![action(set_level(10)), action(double_level()), action(add_level(5))];
    assert_eq!(worker.inner_loop(&handle(), &mut inbox).len(), 3);
    assert_eq!(brightness(worker.state().unwrap(), 17), 25);
}

#[test]
fn read_sees_what_earlier_actions_left() {
    let mut worker = ready_worker();
    assert!(matches!(worker.handle(&handle(), action(set_level(20))), Outcome::Executed(Ok(()))));
    let first = worker.read(|state: State, io: IO<u32>| {
        let level = brightness(&state, 17);
        (state, io, level)
    });
    assert!(matches!(worker.handle(&handle(), action(add_level(1))), Outcome::Executed(Ok(()))));
    let second = worker.read(|state: State, io: IO<u32>| {
        let level = brightness(&state, 17);
        (state, io, level)
    });
    assert_eq!(first, Some(20));
    assert_eq!(second, Some(21));
}

#[test]
fn inner_loop_pauses_for_outside_work() {
    let mut worker = ready_worker();
    let mut inbox: Vec<Message<Job>> = vec![
        action(set_level(10)),
        Message::System(System::Store("inventory.json".to_string())),
        action(set_level(90)),
    ];
    let journal = worker.inner_loop(&handle(), &mut inbox);
    assert_eq!(journal.len(), 2);
    assert!(matches!(journal[0], Outcome::Executed(Ok(()))));
    match &journal[1] {
        Outcome::Store(path) => assert_eq!(path, "inventory.json"),
        _ => panic!("the store pauses the loop"),
    }
    assert_eq!(inbox.len(), 1);
    assert_eq!(brightness(worker.state().unwrap(), 17), 10);
    let journal = worker.inner_loop(&handle(), &mut inbox);
    assert_eq!(journal.len(), 1);
    assert!(inbox.is_empty());
    assert_eq!(brightness(worker.state().unwrap(), 17), 90);
}

#[test]
fn inner_loop_stops_at_shutdown() {
    let mut worker = ready_worker();
    let mut inbox: Vec<Message<Job>> =
        vec![action(set_level(10)), Message::System(System::Shutdown), action(set_level(90))];
    let journal = worker.inner_loop(&handle(), &mut inbox);
    assert_eq!(journal.len(), 2);
    assert!(matches!(journal[1], Outcome::Shutdown));
    assert_eq!(inbox.len(), 1);
    assert_eq!(worker.phase(), Phase::Terminated);
    assert_eq!(brightness(worker.state().unwrap(), 17), 10);
}

#[test]
fn inner_loop_skips_discarded_actions() {
    let mut worker: Worker<u32> = Worker::new();
    let mut inbox: Vec<Message<Job>> = vec![action(set_level(10)), set_context()];
    let journal = worker.inner_loop(&handle(), &mut inbox);
    assert_eq!(journal.len(), 2);
    assert!(matches!(journal[0], Outcome::Discarded(Missing::State)));
    assert!(matches!(journal[1], Outcome::ContextSet));
    assert!(inbox.is_empty());
    assert_eq!(worker.phase(), Phase::PartiallyReady);
}

#[test]
fn failed_load_leaves_no_inventory() {
    let mut worker: Worker<u32> = Worker::new();
    assert!(!worker.install(Err(Failure::new("no such file".to_string()))));
    assert!(worker.state().is_none());
    assert_eq!(worker.phase(), Phase::Uninitialized);
}

#[test]
fn failed_load_keeps_the_installed_inventory() {
    let mut worker = ready_worker();
    assert!(matches!(worker.handle(&handle(), action(set_level(33))), Outcome::Executed(Ok(()))));
    assert!(!worker.install(Err(Failure::new("corrupt".to_string()))));
    assert_eq!(worker.phase(), Phase::Ready);
    assert_eq!(brightness(worker.state().unwrap(), 17), 33);
}

#[test]
fn loaded_inventory_replaces_the_installed_one() {
    let mut worker = ready_worker();
    assert!(matches!(worker.handle(&handle(), action(set_level(33))), Outcome::Executed(Ok(()))));
    let mut other = State::new();
    assert!(other.add_device(1, Device::Light(Light::new(true, 8))));
    assert!(worker.install(Ok(other)));
    let state = worker.state().unwrap();
    assert!(state.device(17).is_none());
    assert_eq!(brightness(state, 1), 8);
    assert!(state.lookup_name(&"lamp1".to_string()).is_none());
    assert_eq!(worker.phase(), Phase::Ready);
}

#[test]
fn store_without_inventory_is_skipped() {
    let mut worker: Worker<u32> = Worker::new();
    let store: Message<Job> = Message::System(System::Store("inventory.json".to_string()));
    assert!(matches!(worker.handle(&handle(), store), Outcome::Skipped));
    assert_eq!(worker.phase(), Phase::Uninitialized);
    assert!(worker.state().is_none());
}

#[test]
fn store_with_inventory_asks_for_the_path() {
    let mut worker = ready_worker();
    let store: Message<Job> = Message::System(System::Store("inventory.json".to_string()));
    match worker.handle(&handle(), store) {
        Outcome::Store(path) => assert_eq!(path, "inventory.json"),
        _ => panic!("a store with an inventory asks for outside work"),
    }
    assert_eq!(worker.phase(), Phase::Ready);
}

#[test]
fn later_context_replaces_the_earlier() {
    let mut worker = ready_worker();
    let (sender, receiver) = channel::<u32>();
    let later = Controller::attach(sender);
    let serial: Message<Job> = Message::System(System::SetContext(Context {
        gateway: Gateway::Serial { port: "ttyS1".to_string() },
    }));
    assert!(matches!(worker.handle(&later, serial), Outcome::ContextSet));
    let seen = worker.read(|state: State, io: IO<u32>| {
        let sent = io.controller.send_msg(23).is_ok();
        let serial = matches!(io.context.gateway, Gateway::Serial { .. });
        (state, io, (sent, serial))
    });
    assert_eq!(seen, Some((true, true)));
    assert_eq!(receiver.try_recv(), Ok(23));
    assert_eq!(brightness(worker.state().unwrap(), 17), 0);
}

#[test]
fn shutdown_ends_all_handling() {
    let mut worker = ready_worker();
    let shutdown: Message<Job> = Message::System(System::Shutdown);
    assert!(matches!(worker.handle(&handle(), shutdown), Outcome::Shutdown));
    assert_eq!(worker.phase(), Phase::Terminated);
    assert!(matches!(worker.handle(&handle(), action(set_level(50))), Outcome::Ignored));
    assert!(matches!(worker.handle(&handle(), set_context()), Outcome::Ignored));
    assert_eq!(brightness(worker.state().unwrap(), 17), 0);
    let answer = worker.read(|state: State, io: IO<u32>| (state, io, 1u8));
    assert_eq!(answer, None);
}

#[test]
fn outcomes_that_pause() {
    assert!(Outcome::Load("a".to_string()).pauses());
    assert!(Outcome::Store("a".to_string()).pauses());
    assert!(Outcome::Shutdown.pauses());
    assert!(Outcome::Ignored.pauses());
    assert!(!Outcome::Executed(Ok(())).pauses());
    assert!(!Outcome::Discarded(Missing::State).pauses());
    assert!(!Outcome::ContextSet.pauses());
    assert!(!Outcome::Skipped.pauses());
}

#[test]
fn inner_loop_on_an_empty_inbox_does_nothing() {
    let mut worker = ready_worker();
    let mut inbox: Vec<Message<Job>> = Vec::new();
    assert!(worker.inner_loop(&handle(), &mut inbox).is_empty());
    assert_eq!(worker.phase(), Phase::Ready);
    assert_eq!(brightness(worker.state().unwrap(), 17), 0);
}

#[test]
fn discarded_action_leaves_counter_unchanged() {
    let mut worker: Worker<u32> = Worker::new();
    let mut inbox: Vec<Message<Job>> = vec![
        action(add_level(1)),
        set_context(),
        Message::System(System::Reload("inventory.json".to_string())),
    ];
    let journal = worker.inner_loop(&handle(), &mut inbox);
    assert_eq!(journal.len(), 3);
    assert!(matches!(journal[0], Outcome::Discarded(Missing::State)));
    assert!(matches!(journal[2], Outcome::Load(_)));
    assert!(worker.install(Ok(inventory())));
    let level = worker.read(|state: State, io: IO<u32>| {
        let level = brightness(&state, 17);
        (state, io, level)
    });
    assert_eq!(level, Some(0));
}
