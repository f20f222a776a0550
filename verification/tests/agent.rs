use omg_core::{State, TryError};

/// Adds up what it is given and reports the running total, twice.
struct Adder {
    total: u64,
}

impl State for Adder {
    type Input = u64;
    type Output = String;

    fn handle(&mut self, msg: u64) -> Vec<String> {
        self.total += msg;
        vec![format!("+{msg}"), format!("={}", self.total)]
    }
}

#[test]
fn message_updates_the_state_and_broadcasts_in_order() {
    let (mut mailbox, mut agent) = Adder { total: 0 }.agent();
    assert_eq!(agent.message(5), 2);
    assert_eq!(agent.message(7), 2);
    assert_eq!(agent.state().total, 12);
    assert_eq!(mailbox.try_read(), Ok("+5".to_string()));
    assert_eq!(mailbox.try_read(), Ok("=5".to_string()));
    assert_eq!(mailbox.try_read(), Ok("+7".to_string()));
    assert_eq!(mailbox.try_read(), Ok("=12".to_string()));
    assert_eq!(mailbox.try_read(), Err(TryError::Empty));
}

#[test]
fn agent_drains_buffered_input_before_it_stops() {
    let (mailbox, mut agent) = Adder { total: 0 }.agent();
    mailbox.try_write(1).unwrap();
    mailbox.try_write(2).unwrap();
    mailbox.try_write(3).unwrap();
    let (mut reader, writer) = mailbox.split();
    drop(writer);
    let mut steps = 0;
    while agent.step() {
        steps += 1;
    }
    assert_eq!(steps, 3);
    assert_eq!(agent.state().total, 6);
    assert!(!agent.step());
    assert_eq!(agent.state().total, 6);
    let mut seen = Vec::new();
    while let Ok(line) = reader.try_read() {
        seen.push(line);
    }
    assert_eq!(seen, vec!["+1", "=1", "+2", "=3", "+3", "=6"]);
}

#[test]
fn outputs_without_a_reader_are_dropped() {
    let (mailbox, mut agent) = Adder { total: 0 }.agent();
    let writer = mailbox.write_only();
    writer.try_write(4).unwrap();
    assert!(agent.step());
    assert_eq!(agent.state().total, 4);
    assert_eq!(agent.message(1), 0);
    assert_eq!(agent.state().total, 5);
    drop(writer);
    assert!(!agent.step());
}

#[test]
fn default_mailbox_holds_sixty_four_inputs() {
    let (mailbox, agent) = Adder { total: 0 }.agent();
    for n in 0..64 {
        assert_eq!(mailbox.try_write(n), Ok(()));
    }
    assert!(mailbox.try_write(64).unwrap_err().is_full());
    assert_eq!(agent.context.input().len(), 64);
}
