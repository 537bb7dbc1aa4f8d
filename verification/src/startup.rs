//! Bringing up an encoder in hardware: the order in which the operating system is
//! asked for its parts, and how they are given back when one of them is missing.
//!
//! The calls themselves are named by actions, and what came of them is handed back
//! as events. `E` is the error of a call.
use vstd::prelude::*;

verus! {

/// Why there is no encoder in hardware.
#[derive(Debug)]
pub enum StartupError<E> {
    /// The encoder takes nonzero even dimensions only.
    OddDimensions,
    /// The component system could not be initialised.
    ComUnavailable,
    /// The machine has no such encoder.
    NoEncoder,
    /// A call failed.
    System(E),
}

impl<E> StartupError<E> {
    /// What is said of the error. A failed call speaks for itself.
    pub fn message(&self) -> (text: Option<&'static str>)
        ensures
            match *self {
                StartupError::OddDimensions => text
                    == Some("Media Foundation H.264 requires nonzero even dimensions"),
                StartupError::ComUnavailable => text
                    == Some("failed to initialize COM for Media Foundation"),
                StartupError::NoEncoder => text
                    == Some("no hardware H.264 Media Foundation encoder is available"),
                StartupError::System(_) => text is None,
            },
    {
        match self {
            StartupError::OddDimensions => {
                Some("Media Foundation H.264 requires nonzero even dimensions")
            },
            StartupError::ComUnavailable => Some("failed to initialize COM for Media Foundation"),
            StartupError::NoEncoder => {
                Some("no hardware H.264 Media Foundation encoder is available")
            },
            StartupError::System(_) => None,
        }
    }
}

/// A call that is to be made of the operating system, or the end.
#[derive(Debug)]
pub enum StartupAction<E> {
    /// Initialise the component system.
    InitializeCom,
    /// Start Media Foundation.
    StartPlatform,
    /// List the encoders in hardware.
    Enumerate,
    /// Activate the encoder at this place of the list.
    Activate(usize),
    /// Give back the encoder at this place of the list.
    Release(usize),
    /// Shut Media Foundation down.
    StopPlatform,
    /// Leave the component system.
    UninitializeCom,
    /// The encoder at this place of the list is active.
    Ready(usize),
    /// There is no encoder, and nothing is left running.
    Fail(StartupError<E>),
}

/// What came of a call.
#[derive(Debug)]
pub enum StartupEvent<E> {
    /// It succeeded.
    Done,
    /// The list holds so many encoders.
    Found(usize),
    /// It failed.
    Failed(E),
}

/// What the startup is waiting for.
pub enum Stage<E> {
    /// For the component system.
    Com,
    /// For Media Foundation.
    Platform,
    /// For the list of encoders.
    Enumeration,
    /// For an encoder to become active.
    Activation {
        /// Its place in the list.
        candidate: usize,
    },
    /// For an encoder to be given back that could not be activated.
    Release {
        /// Its place in the list.
        candidate: usize,
        /// Why it could not.
        failure: E,
    },
    /// For Media Foundation to be shut down.
    Stop {
        /// What is to be reported in the end.
        error: StartupError<E>,
        /// A failure of the shutdown is to be reported instead.
        report_stop: bool,
    },
    /// For the component system to be left.
    Uninit {
        /// What is to be reported in the end.
        error: StartupError<E>,
    },
    /// For nothing.
    Ended,
}

/// The startup of an encoder in hardware.
pub struct Startup<E> {
    /// How many encoders the list holds.
    pub count: usize,
    /// What is being waited for.
    pub stage: Stage<E>,
}

/// The sides that an encoder in hardware takes.
pub open spec fn encodable(width: u32, height: u32) -> bool {
    width > 0 && height > 0 && width % 2 == 0 && height % 2 == 0
}

impl<E> Startup<E> {
    /// The event can follow the call that is being waited for.
    pub open spec fn expects(self, event: StartupEvent<E>) -> bool {
        match self.stage {
            Stage::Enumeration => !(event is Done),
            Stage::Ended => false,
            _ => !(event is Found),
        }
    }

    /// A candidate that is being tried stands in the list.
    pub open spec fn well_formed(self) -> bool {
        match self.stage {
            Stage::Activation { candidate } => candidate < self.count,
            Stage::Release { candidate, .. } => candidate < self.count,
            _ => true,
        }
    }

    /// Where the startup goes from here, and what it does next.
    pub open spec fn next(self, event: StartupEvent<E>) -> (Startup<E>, StartupAction<E>) {
        match (self.stage, event) {
            (Stage::Com, StartupEvent::Failed(_)) => (
                Startup { stage: Stage::Ended, ..self },
                StartupAction::Fail(StartupError::ComUnavailable),
            ),
            (Stage::Com, _) => (
                Startup { stage: Stage::Platform, ..self },
                StartupAction::StartPlatform,
            ),
            (Stage::Platform, StartupEvent::Failed(error)) => self.leave(
                StartupError::System(error),
            ),
            (Stage::Platform, _) => (
                Startup { stage: Stage::Enumeration, ..self },
                StartupAction::Enumerate,
            ),
            (Stage::Enumeration, StartupEvent::Found(count)) => if count == 0 {
                self.stop(StartupError::NoEncoder, true)
            } else {
                (
                    Startup { count, stage: Stage::Activation { candidate: 0 } },
                    StartupAction::Activate(0),
                )
            },
            (Stage::Enumeration, StartupEvent::Failed(error)) => self.stop(
                StartupError::System(error),
                false,
            ),
            (Stage::Activation { candidate }, StartupEvent::Failed(error)) => (
                Startup { stage: Stage::Release { candidate, failure: error }, ..self },
                StartupAction::Release(candidate),
            ),
            (Stage::Activation { candidate }, _) => (
                Startup { stage: Stage::Ended, ..self },
                StartupAction::Ready(candidate),
            ),
            (Stage::Release { candidate, failure }, _) => if candidate + 1 < self.count {
                (
                    Startup {
                        stage: Stage::Activation { candidate: (candidate + 1) as usize },
                        ..self
                    },
                    StartupAction::Activate((candidate + 1) as usize),
                )
            } else {
                self.stop(StartupError::System(failure), false)
            },
            (Stage::Stop { error, report_stop }, StartupEvent::Failed(failure)) => self.leave(
                if report_stop {
                    StartupError::System(failure)
                } else {
                    error
                },
            ),
            (Stage::Stop { error, .. }, _) => self.leave(error),
            (Stage::Uninit { error }, _) => (
                Startup { stage: Stage::Ended, ..self },
                StartupAction::Fail(error),
            ),
            _ => (self, StartupAction::Fail(StartupError::ComUnavailable)),
        }
    }

    /// Media Foundation is shut down, then the component system is left.
    pub open spec fn stop(self, error: StartupError<E>, report_stop: bool) -> (
        Startup<E>,
        StartupAction<E>,
    ) {
        (
            Startup { stage: Stage::Stop { error, report_stop }, ..self },
            StartupAction::StopPlatform,
        )
    }

    /// The component system is left.
    pub open spec fn leave(self, error: StartupError<E>) -> (Startup<E>, StartupAction<E>) {
        (Startup { stage: Stage::Uninit { error }, ..self }, StartupAction::UninitializeCom)
    }

    /// Begins the startup of an encoder for pictures of this size. The first call
    /// that is due initialises the component system.
    pub fn new(width: u32, height: u32) -> (startup: Result<Self, StartupError<E>>)
        ensures
            encodable(width, height) ==> startup == Ok::<Self, StartupError<E>>(
                (Startup { count: 0, stage: Stage::Com }),
            ),
            !encodable(width, height) ==> startup == Err::<Self, StartupError<E>>(
                StartupError::OddDimensions,
            ),
    {
        if width == 0 || height == 0 || width % 2 != 0 || height % 2 != 0 {
            return Err(StartupError::OddDimensions);
        }
        Ok(Startup { count: 0, stage: Stage::Com })
    }

    /// Takes what came of the last call; says which call is due.
    pub fn step(&mut self, event: StartupEvent<E>) -> (action: StartupAction<E>)
        requires
            old(self).expects(event),
            old(self).well_formed(),
        ensures
            (*final(self), action) == old(self).next(event),
            final(self).well_formed(),
    {
        let mut stage = Stage::Ended;
        std::mem::swap(&mut stage, &mut self.stage);
        match stage {
            Stage::Com => match event {
                StartupEvent::Failed(_) => StartupAction::Fail(StartupError::ComUnavailable),
                _ => {
                    self.stage = Stage::Platform;
                    StartupAction::StartPlatform
                },
            },
            Stage::Platform => match event {
                StartupEvent::Failed(error) => {
                    self.stage = Stage::Uninit { error: StartupError::System(error) };
                    StartupAction::UninitializeCom
                },
                _ => {
                    self.stage = Stage::Enumeration;
                    StartupAction::Enumerate
                },
            },
            Stage::Enumeration => match event {
                StartupEvent::Found(count) => {
                    if count == 0 {
                        self.stage = Stage::Stop {
                            error: StartupError::NoEncoder,
                            report_stop: true,
                        };
                        StartupAction::StopPlatform
                    } else {
                        self.count = count;
                        self.stage = Stage::Activation { candidate: 0 };
                        StartupAction::Activate(0)
                    }
                },
                StartupEvent::Failed(error) => {
                    self.stage = Stage::Stop {
                        error: StartupError::System(error),
                        report_stop: false,
                    };
                    StartupAction::StopPlatform
                },
                StartupEvent::Done => StartupAction::Fail(StartupError::ComUnavailable),
            },
            Stage::Activation { candidate } => match event {
                StartupEvent::Failed(error) => {
                    self.stage = Stage::Release { candidate, failure: error };
                    StartupAction::Release(candidate)
                },
                _ => StartupAction::Ready(candidate),
            },
            Stage::Release { candidate, failure } => {
                if candidate + 1 < self.count {
                    self.stage = Stage::Activation { candidate: candidate + 1 };
                    StartupAction::Activate(candidate + 1)
                } else {
                    self.stage = Stage::Stop {
                        error: StartupError::System(failure),
                        report_stop: false,
                    };
                    StartupAction::StopPlatform
                }
            },
            Stage::Stop { error, report_stop } => {
                let reported = match event {
                    StartupEvent::Failed(failure) => if report_stop {
                        StartupError::System(failure)
                    } else {
                        error
                    },
                    _ => error,
                };
                self.stage = Stage::Uninit { error: reported };
                StartupAction::UninitializeCom
            },
            Stage::Uninit { error } => StartupAction::Fail(error),
            Stage::Ended => StartupAction::Fail(StartupError::ComUnavailable),
        }
    }
}

// ---------------------------------------------------------------------------
// What holds of every startup.
// ---------------------------------------------------------------------------

/// How a machine answers the calls: `None` where a call succeeds.
pub struct Answers<E> {
    /// The component system is initialised.
    pub com: Option<E>,
    /// Media Foundation starts.
    pub platform: Option<E>,
    /// The encoders are listed.
    pub found: Result<usize, E>,
    /// The encoder at a place of the list is activated.
    pub activation: spec_fn(int) -> Option<E>,
    /// The encoder at a place of the list is given back.
    pub release: spec_fn(int) -> Option<E>,
    /// Media Foundation shuts down.
    pub stop: Option<E>,
}

/// What was brought up and not yet taken down.
pub struct Held {
    /// The component system.
    pub com: bool,
    /// Media Foundation.
    pub platform: bool,
}

/// A call's answer as an event.
pub open spec fn answered<E>(error: Option<E>) -> StartupEvent<E> {
    match error {
        Some(error) => StartupEvent::Failed(error),
        None => StartupEvent::Done,
    }
}

/// The machine's answer to a call.
pub open spec fn answer<E>(answers: Answers<E>, action: StartupAction<E>) -> StartupEvent<E> {
    match action {
        StartupAction::InitializeCom => answered(answers.com),
        StartupAction::StartPlatform => answered(answers.platform),
        StartupAction::Enumerate => match answers.found {
            Ok(count) => StartupEvent::Found(count),
            Err(error) => StartupEvent::Failed(error),
        },
        StartupAction::Activate(candidate) => answered((answers.activation)(candidate as int)),
        StartupAction::Release(candidate) => answered((answers.release)(candidate as int)),
        StartupAction::StopPlatform => answered(answers.stop),
        _ => StartupEvent::Done,
    }
}

/// What is held after a call and its answer.
pub open spec fn held_after<E>(
    held: Held,
    action: StartupAction<E>,
    event: StartupEvent<E>,
) -> Held {
    match action {
        StartupAction::InitializeCom => Held { com: event is Done, ..held },
        StartupAction::StartPlatform => Held { platform: event is Done, ..held },
        StartupAction::StopPlatform => Held { platform: false, ..held },
        StartupAction::UninitializeCom => Held { com: false, ..held },
        _ => held,
    }
}

/// How far a stage is from the end.
pub open spec fn distance<E>(stage: Stage<E>) -> nat {
    match stage {
        Stage::Com => 6,
        Stage::Platform => 5,
        Stage::Enumeration => 4,
        Stage::Activation { .. } => 3,
        Stage::Release { .. } => 3,
        Stage::Stop { .. } => 2,
        Stage::Uninit { .. } => 1,
        Stage::Ended => 0,
    }
}

/// How many calls on single encoders may still follow.
pub open spec fn calls_left<E>(startup: Startup<E>) -> int {
    match startup.stage {
        Stage::Activation { candidate } => 2 * (startup.count - candidate),
        Stage::Release { candidate, .. } => 2 * (startup.count - candidate) - 1,
        _ => 0,
    }
}

/// How a startup ends on a machine: its last action, and what is held then.
pub open spec fn played<E>(
    answers: Answers<E>,
    startup: Startup<E>,
    action: StartupAction<E>,
    held: Held,
) -> (StartupAction<E>, Held)
    decreases distance(startup.stage), calls_left(startup),
{
    if startup.stage is Ended || !startup.well_formed() || !startup.expects(
        answer(answers, action),
    ) {
        (action, held)
    } else {
        let event = answer(answers, action);
        let (next, due) = startup.next(event);
        played(answers, next, due, held_after(held, action, event))
    }
}

/// The first encoder from `candidate` on that can be activated, or `count`.
pub open spec fn first_working<E>(answers: Answers<E>, candidate: int, count: int) -> int
    decreases count - candidate,
{
    if candidate >= count || (answers.activation)(candidate) is None {
        candidate
    } else {
        first_working(answers, candidate + 1, count)
    }
}

/// How the startup of an encoder has to end on a machine.
pub open spec fn outcome<E>(answers: Answers<E>) -> StartupAction<E> {
    if answers.com is Some {
        StartupAction::Fail(StartupError::ComUnavailable)
    } else {
        match answers.platform {
            Some(error) => StartupAction::Fail(StartupError::System(error)),
            None => match answers.found {
                Err(error) => StartupAction::Fail(StartupError::System(error)),
                Ok(count) => if count == 0 {
                    StartupAction::Fail(
                        match answers.stop {
                            Some(error) => StartupError::System(error),
                            None => StartupError::NoEncoder,
                        },
                    )
                } else {
                    let working = first_working(answers, 0, count as int);
                    if working < count {
                        StartupAction::Ready(working as usize)
                    } else {
                        StartupAction::Fail(
                            StartupError::System((answers.activation)(count - 1)->Some_0),
                        )
                    }
                },
            },
        }
    }
}

/// The encoders are tried one after the other.
proof fn lemma_candidates<E>(answers: Answers<E>, startup: Startup<E>, candidate: usize, held: Held)
    requires
        startup.stage == (Stage::<E>::Activation { candidate }),
        candidate < startup.count,
        held.com,
        held.platform,
    ensures
        ({
            let working = first_working(answers, candidate as int, startup.count as int);
            let end = played(answers, startup, StartupAction::Activate(candidate), held);
            if working < startup.count {
                end == (StartupAction::<E>::Ready(working as usize), held)
            } else {
                end == (
                    StartupAction::<E>::Fail(
                        StartupError::System((answers.activation)(startup.count - 1)->Some_0),
                    ),
                    (Held { com: false, platform: false }),
                )
            }
        }),
    decreases startup.count - candidate,
{
    reveal_with_fuel(played, 5);
    reveal_with_fuel(first_working, 2);
    match (answers.activation)(candidate as int) {
        None => {},
        Some(error) => {
            let (releasing, release) = startup.next(StartupEvent::Failed(error));
            let (after, due) = releasing.next(answered((answers.release)(candidate as int)));
            if candidate + 1 < startup.count {
                lemma_candidates(answers, after, (candidate + 1) as usize, held);
            }
        },
    }
}

/// A startup ends with the first encoder in the list that can be activated, and
/// then the component system and Media Foundation are up. If there is none it ends
/// with an error, and neither is: everything that was brought up has been taken
/// down. The error is that of the first step that failed; of several encoders that
/// could not be activated, the last one's.
pub proof fn law_startup_finds_the_first_working_encoder<E>(answers: Answers<E>)
    ensures
        ({
            let (end, held) = played(
                answers,
                Startup { count: 0, stage: Stage::Com },
                StartupAction::InitializeCom,
                Held { com: false, platform: false },
            );
            &&& end == outcome(answers)
            &&& end is Ready || end is Fail
            &&& end is Ready ==> held.com && held.platform
            &&& end is Fail ==> !held.com && !held.platform
        }),
{
    reveal_with_fuel(played, 6);
    if answers.com is None && answers.platform is None {
        match answers.found {
            Ok(count) => {
                if count > 0 {
                    lemma_candidates(
                        answers,
                        Startup { count, stage: Stage::Activation { candidate: 0 } },
                        0,
                        Held { com: true, platform: true },
                    );
                }
            },
            Err(_) => {},
        }
    }
}

// ---------------------------------------------------------------------------
// The calls of a startup, one by one.
// ---------------------------------------------------------------------------

/// The actions of a startup on a machine, in order, from this one on.
pub open spec fn actions<E>(
    answers: Answers<E>,
    startup: Startup<E>,
    action: StartupAction<E>,
) -> Seq<StartupAction<E>>
    decreases distance(startup.stage), calls_left(startup),
{
    if startup.stage is Ended || !startup.well_formed() || !startup.expects(
        answer(answers, action),
    ) {
        seq![action]
    } else {
        let (next, due) = startup.next(answer(answers, action));
        seq![action] + actions(answers, next, due)
    }
}

/// The actions of a whole startup.
pub open spec fn all_actions<E>(answers: Answers<E>) -> Seq<StartupAction<E>> {
    actions(answers, Startup { count: 0, stage: Stage::Com }, StartupAction::InitializeCom)
}

/// Each encoder from one place of the list up to another is tried and given back.
pub open spec fn tried<E>(from: int, to: int) -> Seq<StartupAction<E>> {
    Seq::new(
        (2 * (to - from)) as nat,
        |i: int|
            if i % 2 == 0 {
                StartupAction::Activate((from + i / 2) as usize)
            } else {
                StartupAction::Release((from + i / 2) as usize)
            },
    )
}

/// None of the first encoders can be activated, and the next one can, if there is one.
pub open spec fn works_first<E>(
    activation: spec_fn(int) -> Option<E>,
    count: int,
    working: int,
) -> bool {
    &&& 0 <= working <= count
    &&& forall|j: int| 0 <= j < working ==> #[trigger] activation(j) is Some
    &&& working < count ==> activation(working) is None
}

/// From a candidate on, the encoders are tried one after the other.
#[verifier::rlimit(30)]
proof fn lemma_tries<E>(answers: Answers<E>, count: usize, candidate: usize, working: int)
    requires
        works_first(answers.activation, count as int, working),
        candidate <= working,
        candidate < count,
    ensures
        actions(
            answers,
            Startup { count, stage: Stage::Activation { candidate } },
            StartupAction::Activate(candidate),
        ) == tried::<E>(candidate as int, working) + if working < count {
            seq![
                StartupAction::<E>::Activate(working as usize),
                StartupAction::<E>::Ready(working as usize),
            ]
        } else {
            seq![
                StartupAction::<E>::StopPlatform,
                StartupAction::<E>::UninitializeCom,
                StartupAction::<E>::Fail(
                    StartupError::System((answers.activation)(count - 1)->Some_0),
                ),
            ]
        },
    decreases count - candidate,
{
    reveal_with_fuel(actions, 6);
    let startup = Startup { count, stage: Stage::<E>::Activation { candidate } };
    let all = actions(answers, startup, StartupAction::Activate(candidate));
    if candidate < working {
        let error = (answers.activation)(candidate as int)->Some_0;
        assert((answers.activation)(candidate as int) is Some);
        let releasing = Startup { count, stage: Stage::Release { candidate, failure: error } };
        let rest = actions(answers, releasing, StartupAction::Release(candidate));
        assert(all =~= seq![StartupAction::Activate(candidate)] + rest);
        if candidate + 1 < count {
            let next = (candidate + 1) as usize;
            lemma_tries(answers, count, next, working);
            let following = actions(
                answers,
                Startup { count, stage: Stage::Activation { candidate: next } },
                StartupAction::Activate(next),
            );
            assert(rest =~= seq![StartupAction::Release(candidate)] + following);
            assert(tried::<E>(candidate as int, working) =~= seq![
                StartupAction::Activate(candidate),
                StartupAction::Release(candidate),
            ] + tried::<E>(next as int, working));
        } else {
            assert(working == count);
            assert(tried::<E>(candidate as int, working) =~= seq![
                StartupAction::Activate(candidate),
                StartupAction::Release(candidate),
            ]);
            assert(rest =~= seq![
                StartupAction::Release(candidate),
                StartupAction::StopPlatform,
                StartupAction::UninitializeCom,
                StartupAction::Fail(StartupError::System(error)),
            ]);
        }
    } else {
        assert((answers.activation)(working) is None);
        assert(tried::<E>(candidate as int, working) =~= Seq::empty());
        assert(all =~= seq![
            StartupAction::Activate(candidate),
            StartupAction::Ready(candidate),
        ]);
    }
}

/// With encoders in the list, a startup brings up the component system and Media
/// Foundation, then tries the encoders from the first on, and gives back each that cannot
/// be activated before it tries the next. It stops at the first that can, whatever its
/// place. If none can, it takes down both in the opposite order and reports why the last
/// one could not.
pub proof fn law_encoders_are_tried_in_order<E>(answers: Answers<E>, count: usize, working: int)
    requires
        answers.com is None,
        answers.platform is None,
        answers.found == Ok::<usize, E>(count),
        count > 0,
        works_first(answers.activation, count as int, working),
    ensures
        all_actions(answers) == seq![
            StartupAction::<E>::InitializeCom,
            StartupAction::<E>::StartPlatform,
            StartupAction::<E>::Enumerate,
        ] + tried::<E>(0, working) + if working < count {
            seq![
                StartupAction::<E>::Activate(working as usize),
                StartupAction::<E>::Ready(working as usize),
            ]
        } else {
            seq![
                StartupAction::<E>::StopPlatform,
                StartupAction::<E>::UninitializeCom,
                StartupAction::<E>::Fail(
                    StartupError::System((answers.activation)(count - 1)->Some_0),
                ),
            ]
        },
{
    reveal_with_fuel(actions, 4);
    lemma_tries(answers, count, 0, working);
    let rest = actions(
        answers,
        Startup { count, stage: Stage::<E>::Activation { candidate: 0 } },
        StartupAction::Activate(0),
    );
    assert(all_actions(answers) =~= seq![
        StartupAction::<E>::InitializeCom,
        StartupAction::<E>::StartPlatform,
        StartupAction::<E>::Enumerate,
    ] + rest);
    assert(all_actions(answers) =~= seq![
        StartupAction::<E>::InitializeCom,
        StartupAction::<E>::StartPlatform,
        StartupAction::<E>::Enumerate,
    ] + tried::<E>(0, working) + rest.skip(tried::<E>(0, working).len() as int));
}

/// A startup that gets no list of encoders takes down what it had brought up, in the
/// opposite order, and reports what failed. An empty list is reported as such, unless
/// Media Foundation cannot be shut down; in all other cases that is passed over.
pub proof fn law_failed_startup_is_undone<E>(answers: Answers<E>)
    ensures
        answers.com is Some ==> all_actions(answers) == seq![
            StartupAction::<E>::InitializeCom,
            StartupAction::<E>::Fail(StartupError::ComUnavailable),
        ],
        answers.com is None && answers.platform is Some ==> all_actions(answers) == seq![
            StartupAction::<E>::InitializeCom,
            StartupAction::<E>::StartPlatform,
            StartupAction::<E>::UninitializeCom,
            StartupAction::<E>::Fail(StartupError::System(answers.platform->Some_0)),
        ],
        answers.com is None && answers.platform is None && (answers.found is Err || answers.found
            == Ok::<usize, E>(0)) ==> all_actions(answers) == seq![
            StartupAction::<E>::InitializeCom,
            StartupAction::<E>::StartPlatform,
            StartupAction::<E>::Enumerate,
            StartupAction::<E>::StopPlatform,
            StartupAction::<E>::UninitializeCom,
            StartupAction::<E>::Fail(
                match answers.found {
                    Err(error) => StartupError::System(error),
                    Ok(_) => match answers.stop {
                        Some(error) => StartupError::System(error),
                        None => StartupError::NoEncoder,
                    },
                },
            ),
        ],
{
    reveal_with_fuel(actions, 7);
    if answers.com is Some {
        assert(all_actions(answers) =~= seq![
            StartupAction::<E>::InitializeCom,
            StartupAction::<E>::Fail(StartupError::ComUnavailable),
        ]);
    } else if answers.platform is Some {
        assert(all_actions(answers) =~= seq![
            StartupAction::<E>::InitializeCom,
            StartupAction::<E>::StartPlatform,
            StartupAction::<E>::UninitializeCom,
            StartupAction::<E>::Fail(StartupError::System(answers.platform->Some_0)),
        ]);
    } else if answers.found is Err || answers.found == Ok::<usize, E>(0) {
        let reported = match answers.found {
            Err(error) => StartupError::System(error),
            Ok(_) => match answers.stop {
                Some(error) => StartupError::System(error),
                None => StartupError::NoEncoder,
            },
        };
        assert(all_actions(answers) =~= seq![
            StartupAction::<E>::InitializeCom,
            StartupAction::<E>::StartPlatform,
            StartupAction::<E>::Enumerate,
            StartupAction::<E>::StopPlatform,
            StartupAction::<E>::UninitializeCom,
            StartupAction::<E>::Fail(reported),
        ]);
    }
}

/// An encoder in hardware takes pictures whose sides are twice some whole number that is
/// not zero, and no others, whatever their size.
pub proof fn law_both_sides_are_even(width: u32, height: u32, columns: int, rows: int)
    requires
        0 <= columns,
        0 <= rows,
    ensures
        width == 2 * columns && height == 2 * rows ==> (encodable(width, height) <==> columns > 0
            && rows > 0),
        width == 2 * columns + 1 || height == 2 * rows + 1 ==> !encodable(width, height),
{
}

/// When the component system was left, the startup is over and reports what it had to,
/// whatever came of that last call.
pub proof fn law_last_call_changes_nothing<E>(
    count: usize,
    error: StartupError<E>,
    event: StartupEvent<E>,
)
    ensures
        (Startup { count, stage: Stage::Uninit { error } }).next(event).1 == StartupAction::Fail(
            error,
        ),
        (Startup { count, stage: Stage::Uninit { error } }).next(event).0.stage is Ended,
{
}

} // verus!
