use rustygoblin::startup::{plan, select_interface, usage_brief, Options, Plan, StartupError};

fn options() -> Options {
    Options { help: false, interface: None, bind: None, connect: None, server: false, client: false }
}

fn text(value: &str) -> Option<String> {
    Some(String::from(value))
}

#[test]
fn help_wins_over_everything() {
    assert_eq!(plan(Options { help: true, ..options() }), Ok(Plan::Usage));
    let all = Options {
        help: true,
        interface: text("eth0"),
        bind: text("tcp://*:5556"),
        connect: text("tcp://127.0.0.1:5556"),
        server: true,
        client: true,
    };
    assert_eq!(plan(all), Ok(Plan::Usage));
}

#[test]
fn every_other_plan_needs_the_interface() {
    assert_eq!(plan(options()), Err(StartupError::MissingInterface));
    let server = Options { server: true, bind: text("tcp://*:5556"), ..options() };
    assert_eq!(plan(server), Err(StartupError::MissingInterface));
    let client = Options { client: true, connect: text("tcp://127.0.0.1:5556"), ..options() };
    assert_eq!(plan(client), Err(StartupError::MissingInterface));
}

#[test]
fn the_collector_needs_the_bind_address() {
    let bare = Options { interface: text("eth0"), server: true, ..options() };
    assert_eq!(plan(bare), Err(StartupError::MissingBind));
    let full = Options {
        interface: text("eth0"),
        server: true,
        bind: text("tcp://*:5556"),
        ..options()
    };
    assert_eq!(
        plan(full),
        Ok(Plan::Collector { interface: String::from("eth0"), bind: String::from("tcp://*:5556") })
    );
}

#[test]
fn the_producer_needs_the_connect_address() {
    let bare = Options { interface: text("eth0"), client: true, ..options() };
    assert_eq!(plan(bare), Err(StartupError::MissingConnect));
    let full = Options {
        interface: text("eth0"),
        client: true,
        connect: text("tcp://127.0.0.1:5556"),
        ..options()
    };
    assert_eq!(
        plan(full),
        Ok(Plan::Producer {
            interface: String::from("eth0"),
            connect: String::from("tcp://127.0.0.1:5556"),
        })
    );
}

#[test]
fn the_collector_role_wins_over_the_producer_role() {
    let both = Options {
        interface: text("eth0"),
        server: true,
        client: true,
        bind: text("tcp://*:5556"),
        connect: text("tcp://127.0.0.1:5556"),
        ..options()
    };
    assert_eq!(
        plan(both),
        Ok(Plan::Collector { interface: String::from("eth0"), bind: String::from("tcp://*:5556") })
    );
    let unbound = Options {
        interface: text("eth0"),
        server: true,
        client: true,
        connect: text("tcp://127.0.0.1:5556"),
        ..options()
    };
    assert_eq!(plan(unbound), Err(StartupError::MissingBind));
}

#[test]
fn without_a_role_the_process_counts_on_the_spot() {
    let local = Options { interface: text("eth0"), bind: text("tcp://*:5556"), ..options() };
    assert_eq!(plan(local), Ok(Plan::Local { interface: String::from("eth0") }));
}

#[test]
fn the_first_interface_of_that_name_is_picked() {
    let names = vec![String::from("lo"), String::from("eth0"), String::from("eth1"), String::from("eth0")];
    assert_eq!(select_interface(&names, &String::from("eth0")), Some(1));
    assert_eq!(select_interface(&names, &String::from("lo")), Some(0));
    assert_eq!(select_interface(&names, &String::from("eth1")), Some(2));
    assert_eq!(select_interface(&names, &String::from("eth")), None);
    assert_eq!(select_interface(&names, &String::from("")), None);
    assert_eq!(select_interface(&vec![], &String::from("eth0")), None);
}

#[test]
fn usage_names_the_program() {
    assert_eq!(usage_brief("rustygoblin"), "Usage: rustygoblin FILE [options]");
    assert_eq!(usage_brief(""), "Usage:  FILE [options]");
}
