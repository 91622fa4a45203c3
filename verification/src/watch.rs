//! What to do about a change to a watched resource, and which uptime test a
//! deleted service leaves behind.
use vstd::prelude::*;
use crate::text::{join2, join3, same_text};

verus! {

/// A change to a watched resource.
#[derive(Clone, Debug)]
pub enum WatchEvent<T> {
    Added(T),
    Modified(T),
    Deleted(T),
    /// The watch itself failed, with this message.
    Error(String),
}

/// What a change asks for.
#[derive(Clone, Debug)]
pub enum Action<T> {
    /// Nothing worth doing.
    Nothing,
    /// The resource is being deleted: clean up after it.
    Cleanup(T),
}

/// The resource that an event is about, if it is about one.
pub fn check_events<T>(ev: WatchEvent<T>) -> (r: Option<T>)
    ensures
        r == match ev {
            WatchEvent::Added(o) => Some(o),
            WatchEvent::Modified(o) => Some(o),
            WatchEvent::Deleted(o) => Some(o),
            WatchEvent::Error(_) => None,
        },
{
    match ev {
        WatchEvent::Added(o) => Some(o),
        WatchEvent::Modified(o) => Some(o),
        WatchEvent::Deleted(o) => Some(o),
        WatchEvent::Error(_) => None,
    }
}

/// What an event asks for, where `deleting` says whether the resource that
/// it is about is marked for deletion: a resource that was added or modified
/// while so marked is cleaned up after.
pub fn check_events_for_gc<T>(ev: WatchEvent<T>, deleting: bool) -> (r: Action<T>)
    ensures
        r == match ev {
            WatchEvent::Added(o) => if deleting {
                Action::Cleanup(o)
            } else {
                Action::Nothing
            },
            WatchEvent::Modified(o) => if deleting {
                Action::Cleanup(o)
            } else {
                Action::Nothing
            },
            _ => Action::<T>::Nothing,
        },
{
    match ev {
        WatchEvent::Added(o) => if deleting {
            Action::Cleanup(o)
        } else {
            Action::Nothing
        },
        WatchEvent::Modified(o) => if deleting {
            Action::Cleanup(o)
        } else {
            Action::Nothing
        },
        _ => Action::Nothing,
    }
}

/// Whether a resource has to be cleaned up after: it is, once it is marked
/// for deletion.
pub fn reconcile(deleting: bool) -> (cleanup: bool)
    ensures
        cleanup == deleting,
{
    deleting
}

/// An uptime test, as the monitoring service describes it.
#[allow(non_snake_case)]
#[derive(Clone, Debug)]
pub struct Test {
    pub TestID: Option<u64>,
    pub WebsiteName: String,
    pub WebsiteURL: String,
    pub TestType: String,
    pub ContactGroup: Vec<String>,
    pub CheckRate: u32,
    pub TriggerRate: Option<u32>,
    pub Paused: Option<bool>,
    pub Public: Option<u32>,
    pub Timeout: Option<u32>,
    pub StatusCodes: Option<String>,
}

/// The status codes that count as a failure of a test.
pub const FAILURE_CODES: &'static str =
    "204,205,206,303,400,401,403,404,405,406,408,410,413,444,429,494,495,496,499,500,501,502,503,504,505,506,507,508,509,510,511,521,522,523,524,520,598,599";

impl Test {
    /// An HTTP test of `url` under `name`, checked every thirty seconds.
    pub fn new(name: &str, url: &str) -> (t: Test)
        ensures
            t.WebsiteName@ == name@,
            t.WebsiteURL@ == url@,
            t.TestType@ == "HTTP"@,
            t.ContactGroup@.len() == 1,
            t.ContactGroup@[0]@ == "31035"@,
            t.CheckRate == 30,
            t.TestID is None,
            t.Paused == Some(false),
            t.Timeout == Some(40u32),
            t.TriggerRate == Some(3u32),
            t.Public == Some(0u32),
            t.StatusCodes matches Some(c) && c@ == FAILURE_CODES@,
    {
        let mut group: Vec<String> = Vec::new();
        group.push("31035".to_owned());
        Test {
            WebsiteName: name.to_owned(),
            WebsiteURL: url.to_owned(),
            TestType: "HTTP".to_owned(),
            ContactGroup: group,
            CheckRate: 30,
            TestID: None,
            Paused: Some(false),
            Timeout: Some(40),
            TriggerRate: Some(3),
            Public: Some(0),
            StatusCodes: Some(FAILURE_CODES.to_owned()),
        }
    }
}

/// The name of the health check test of the service `name` in `region`.
pub open spec fn health_check_name(region: Seq<char>, name: Seq<char>) -> Seq<char> {
    region + " "@ + name + " healthcheck"@
}

/// The position of the first test among `tests` that is the health check of
/// the service `name` in `region`.
pub fn find_orphan(tests: &Vec<Test>, region: &str, name: &str) -> (r: Option<usize>)
    ensures
        match r {
            Some(i) => i < tests@.len() && tests@[i as int].WebsiteName@ == health_check_name(
                region@,
                name@,
            ) && forall|j: int|
                0 <= j < i ==> (#[trigger] tests@[j]).WebsiteName@ != health_check_name(
                    region@,
                    name@,
                ),
            None => forall|j: int|
                0 <= j < tests@.len() ==> (#[trigger] tests@[j]).WebsiteName@ != health_check_name(
                    region@,
                    name@,
                ),
        },
{
    let a = join3(region, " ", name);
    let wanted = join2(a.as_str(), " healthcheck");
    let mut i: usize = 0;
    while i < tests.len()
        invariant
            i <= tests.len(),
            wanted@ == health_check_name(region@, name@),
            forall|j: int| 0 <= j < i ==> (#[trigger] tests@[j]).WebsiteName@ != wanted@,
        decreases tests.len() - i,
    {
        if same_text(tests[i].WebsiteName.as_str(), wanted.as_str()) {
            return Some(i);
        }
        i += 1;
    }
    None
}

} // verus!
