//! What the process sets out to do, decided from the options it was given.

use vstd::prelude::*;
use vstd::string::*;

verus! {

/// The options of the command line, as plain values.
#[derive(Clone, Debug, PartialEq, Eq)]
pub struct Options {
    /// Whether usage was asked for.
    pub help: bool,
    /// The name of the interface to capture on.
    pub interface: Option<String>,
    /// The address that a collector binds.
    pub bind: Option<String>,
    /// The address that a producer connects to.
    pub connect: Option<String>,
    /// Whether the collector role was chosen.
    pub server: bool,
    /// Whether the producer role was chosen.
    pub client: bool,
}

/// What the process does.
#[derive(Clone, Debug, PartialEq, Eq)]
pub enum Plan {
    /// Print usage and leave.
    Usage,
    /// Capture on `interface` and collect what producers relay to `bind`.
    Collector { interface: String, bind: String },
    /// Capture on `interface` and relay to the collector at `connect`.
    Producer { interface: String, connect: String },
    /// Capture on `interface` and count on the spot.
    Local { interface: String },
}

/// What a `Plan` holds.
pub enum PlanView {
    Usage,
    Collector { interface: Seq<char>, bind: Seq<char> },
    Producer { interface: Seq<char>, connect: Seq<char> },
    Local { interface: Seq<char> },
}

impl View for Plan {
    type V = PlanView;

    open spec fn view(&self) -> PlanView {
        match self {
            Plan::Usage => PlanView::Usage,
            Plan::Collector { interface, bind } => PlanView::Collector {
                interface: interface@,
                bind: bind@,
            },
            Plan::Producer { interface, connect } => PlanView::Producer {
                interface: interface@,
                connect: connect@,
            },
            Plan::Local { interface } => PlanView::Local { interface: interface@ },
        }
    }
}

/// An option that the chosen role needs and that was not given.
#[derive(Clone, Copy, Debug, PartialEq, Eq, Structural)]
pub enum StartupError {
    /// No interface to capture on.
    MissingInterface,
    /// The collector role without an address to bind.
    MissingBind,
    /// The producer role without an address to connect to.
    MissingConnect,
}

/// The rule of `plan`, over the text of the options. A call for help wins over
/// everything. Every other plan needs the interface. The collector role wins
/// over the producer role and needs the bind address; the producer role needs
/// the connect address; with neither role the process counts on the spot.
pub open spec fn planned(
    help: bool,
    interface: Option<Seq<char>>,
    bind: Option<Seq<char>>,
    connect: Option<Seq<char>>,
    server: bool,
    client: bool,
) -> Result<PlanView, StartupError> {
    if help {
        Ok(PlanView::Usage)
    } else if interface is None {
        Err(StartupError::MissingInterface)
    } else if server {
        match bind {
            Some(bind) => Ok(PlanView::Collector { interface: interface->0, bind }),
            None => Err(StartupError::MissingBind),
        }
    } else if client {
        match connect {
            Some(connect) => Ok(PlanView::Producer { interface: interface->0, connect }),
            None => Err(StartupError::MissingConnect),
        }
    } else {
        Ok(PlanView::Local { interface: interface->0 })
    }
}

/// The text of an option that may be absent.
pub open spec fn text_of(option: Option<String>) -> Option<Seq<char>> {
    match option {
        Some(text) => Some(text@),
        None => None,
    }
}

/// Decides from the options what the process does, or which option it lacks.
pub fn plan(options: Options) -> (outcome: Result<Plan, StartupError>)
    ensures
        (match planned(
            options.help,
            text_of(options.interface),
            text_of(options.bind),
            text_of(options.connect),
            options.server,
            options.client,
        ) {
            Ok(view) => outcome matches Ok(plan) && plan@ == view,
            Err(error) => outcome == Err::<Plan, StartupError>(error),
        }),
{
    if options.help {
        return Ok(Plan::Usage);
    }
    let interface = match options.interface {
        Some(interface) => interface,
        None => {
            return Err(StartupError::MissingInterface);
        },
    };
    if options.server {
        match options.bind {
            Some(bind) => Ok(Plan::Collector { interface, bind }),
            None => Err(StartupError::MissingBind),
        }
    } else if options.client {
        match options.connect {
            Some(connect) => Ok(Plan::Producer { interface, connect }),
            None => Err(StartupError::MissingConnect),
        }
    } else {
        Ok(Plan::Local { interface })
    }
}

/// The first line of the usage text: the name of the program between
/// `Usage: ` and ` FILE [options]`.
pub open spec fn usage_line(program: Seq<char>) -> Seq<char> {
    seq!['U', 's', 'a', 'g', 'e', ':', ' '] + program + seq![
        ' ',
        'F',
        'I',
        'L',
        'E',
        ' ',
        '[',
        'o',
        'p',
        't',
        'i',
        'o',
        'n',
        's',
        ']',
    ]
}

/// Writes the first line of the usage text for the program called `program`.
pub fn usage_brief(program: &str) -> (brief: String)
    ensures
        brief@ == usage_line(program@),
{
    proof {
        reveal_strlit("Usage: ");
        reveal_strlit(" FILE [options]");
    }
    let mut brief = String::new();
    brief.append("Usage: ");
    brief.append(program);
    brief.append(" FILE [options]");
    assert(brief@ =~= usage_line(program@));
    brief
}

/// Picks the interface to capture on: the place of the first name in `names`
/// that equals `wanted`, or nothing where no name does.
pub fn select_interface(names: &Vec<String>, wanted: &String) -> (found: Option<usize>)
    ensures
        (match found {
            Some(at) => at < names@.len() && names@[at as int]@ == wanted@ && forall|i: int|
                0 <= i < at ==> (#[trigger] names@[i])@ != wanted@,
            None => forall|i: int| 0 <= i < names@.len() ==> (#[trigger] names@[i])@ != wanted@,
        }),
{
    let mut i: usize = 0;
    while i < names.len()
        invariant
            i <= names@.len(),
            forall|j: int| 0 <= j < i ==> (#[trigger] names@[j])@ != wanted@,
        decreases names@.len() - i,
    {
        if names[i] == *wanted {
            return Some(i);
        }
        i += 1;
    }
    None
}

} // verus!
