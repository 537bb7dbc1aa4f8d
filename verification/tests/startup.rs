use vantage::startup::{Startup, StartupAction, StartupError, StartupEvent};

/// A machine: which calls fail, and what is up.
struct Machine {
    com: Option<u32>,
    platform: Option<u32>,
    found: Result<usize, u32>,
    activation: Vec<Option<u32>>,
    stop: Option<u32>,
    up: Vec<&'static str>,
    calls: Vec<String>,
}

fn machine(activation: Vec<Option<u32>>) -> Machine {
    Machine {
        com: None,
        platform: None,
        found: Ok(activation.len()),
        activation,
        stop: None,
        up: Vec::new(),
        calls: Vec::new(),
    }
}

fn answered(error: Option<u32>) -> StartupEvent<u32> {
    match error {
        Some(error) => StartupEvent::Failed(error),
        None => StartupEvent::Done,
    }
}

impl Machine {
    fn run(&mut self) -> Result<usize, StartupError<u32>> {
        let mut startup = Startup::new(640, 480)?;
        let mut action = StartupAction::InitializeCom;
        loop {
            self.calls.push(format!("{action:?}"));
            let event = match action {
                StartupAction::InitializeCom => {
                    if self.com.is_none() {
                        self.up.push("com");
                    }
                    answered(self.com)
                }
                StartupAction::StartPlatform => {
                    if self.platform.is_none() {
                        self.up.push("platform");
                    }
                    answered(self.platform)
                }
                StartupAction::Enumerate => match self.found {
                    Ok(count) => StartupEvent::Found(count),
                    Err(error) => StartupEvent::Failed(error),
                },
                StartupAction::Activate(candidate) => answered(self.activation[candidate]),
                StartupAction::Release(_) => StartupEvent::Failed(99),
                StartupAction::StopPlatform => {
                    assert_eq!(self.up.pop(), Some("platform"));
                    answered(self.stop)
                }
                StartupAction::UninitializeCom => {
                    assert_eq!(self.up.pop(), Some("com"));
                    StartupEvent::Done
                }
                StartupAction::Ready(candidate) => return Ok(candidate),
                StartupAction::Fail(error) => return Err(error),
            };
            action = startup.step(event);
        }
    }
}

#[test]
fn the_first_encoder_that_works_is_taken() {
    let mut machine = machine(vec![Some(1), Some(2), None, None]);
    assert_eq!(machine.run().unwrap(), 2);
    assert_eq!(machine.up, vec!["com", "platform"]);
    assert_eq!(
        machine.calls,
        vec![
            "InitializeCom",
            "StartPlatform",
            "Enumerate",
            "Activate(0)",
            "Release(0)",
            "Activate(1)",
            "Release(1)",
            "Activate(2)",
            "Ready(2)",
        ]
    );
}

#[test]
fn of_encoders_that_do_not_work_the_last_is_reported() {
    let mut machine = machine(vec![Some(1), Some(2)]);
    machine.stop = Some(50);
    assert!(matches!(machine.run(), Err(StartupError::System(2))));
    assert!(machine.up.is_empty());
}

#[test]
fn a_machine_without_encoders_says_so() {
    let mut machine = machine(vec![]);
    let error = machine.run().unwrap_err();
    assert!(matches!(error, StartupError::NoEncoder));
    assert_eq!(
        error.message(),
        Some("no hardware H.264 Media Foundation encoder is available")
    );
    assert!(machine.up.is_empty());
}

#[test]
fn without_encoders_a_failing_shutdown_is_reported() {
    let mut machine = machine(vec![]);
    machine.stop = Some(50);
    let error = machine.run().unwrap_err();
    assert!(matches!(error, StartupError::System(50)));
    assert_eq!(error.message(), None);
    assert!(machine.up.is_empty());
}

#[test]
fn a_list_that_cannot_be_had_is_reported() {
    let mut machine = machine(vec![]);
    machine.found = Err(8);
    machine.stop = Some(50);
    assert!(matches!(machine.run(), Err(StartupError::System(8))));
    assert!(machine.up.is_empty());
}

#[test]
fn media_foundation_that_does_not_start_is_reported() {
    let mut machine = machine(vec![None]);
    machine.platform = Some(6);
    assert!(matches!(machine.run(), Err(StartupError::System(6))));
    assert!(machine.up.is_empty());
    assert_eq!(
        machine.calls,
        vec!["InitializeCom", "StartPlatform", "UninitializeCom", "Fail(System(6))"]
    );
}

#[test]
fn without_com_nothing_else_is_tried() {
    let mut machine = machine(vec![None]);
    machine.com = Some(4);
    let error = machine.run().unwrap_err();
    assert!(matches!(error, StartupError::ComUnavailable));
    assert_eq!(error.message(), Some("failed to initialize COM for Media Foundation"));
    assert_eq!(machine.calls.len(), 2);
}

#[test]
fn odd_and_empty_sizes_are_refused() {
    for (width, height) in [(0, 2), (2, 0), (3, 2), (2, 3), (1919, 1079)] {
        let error = Startup::<u32>::new(width, height).err().unwrap();
        assert!(matches!(error, StartupError::OddDimensions));
        assert_eq!(
            error.message(),
            Some("Media Foundation H.264 requires nonzero even dimensions")
        );
    }
    assert!(Startup::<u32>::new(2, 2).is_ok());
}
