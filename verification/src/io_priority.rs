//! I/O scheduling of the payload.

use crate::context::{IOPriorityClass, LinuxIOPriority};
use crate::error::{InitErrorView, InitProcessError};
use oci_spec::runtime::IOPriorityClass as OciClass;
use vstd::hash_map::StringHashMap;
use vstd::prelude::*;

verus! {

impl IOPriorityClass {
    /// The class in JSON: its name in the configuration of a container, in quotes.
    pub open spec fn json(self) -> Seq<char> {
        match self {
            IOPriorityClass::IoprioClassRt => "\"IOPRIO_CLASS_RT\""@,
            IOPriorityClass::IoprioClassBe => "\"IOPRIO_CLASS_BE\""@,
            IOPriorityClass::IoprioClassIdle => "\"IOPRIO_CLASS_IDLE\""@,
        }
    }

    /// The number of the class in the kernel's interface.
    pub open spec fn number(self) -> i64 {
        match self {
            IOPriorityClass::IoprioClassRt => 1,
            IOPriorityClass::IoprioClassBe => 2,
            IOPriorityClass::IoprioClassIdle => 3,
        }
    }
}

/// Writes a class in JSON, with `serde_json::to_string` on
/// `oci_spec::runtime::IOPriorityClass`: a unit variant becomes its name, which the
/// crate writes in upper case with underscores, in quotes. No such value fails.
#[verifier::external_body]
pub(crate) fn class_to_json(class: IOPriorityClass) -> (written: Result<String, String>)
    ensures
        written is Ok,
        written->Ok_0@ == class.json(),
{
    let class = match class {
        IOPriorityClass::IoprioClassRt => OciClass::IoprioClassRt,
        IOPriorityClass::IoprioClassBe => OciClass::IoprioClassBe,
        IOPriorityClass::IoprioClassIdle => OciClass::IoprioClassIdle,
    };
    serde_json::to_string(&class).map_err(|err| err.to_string())
}

/// The number of the class that a text denotes in JSON.
pub open spec fn class_number(json: Seq<char>) -> Option<i64> {
    if json == IOPriorityClass::IoprioClassRt.json() {
        Some(IOPriorityClass::IoprioClassRt.number())
    } else if json == IOPriorityClass::IoprioClassBe.json() {
        Some(IOPriorityClass::IoprioClassBe.number())
    } else if json == IOPriorityClass::IoprioClassIdle.json() {
        Some(IOPriorityClass::IoprioClassIdle.number())
    } else {
        None
    }
}

/// The three classes differ in JSON, so that each has its own number.
pub proof fn law_class_number(class: IOPriorityClass)
    ensures
        class_number(class.json()) == Some(class.number()),
{
    reveal_strlit("\"IOPRIO_CLASS_RT\"");
    reveal_strlit("\"IOPRIO_CLASS_BE\"");
    reveal_strlit("\"IOPRIO_CLASS_IDLE\"");
    assert(IOPriorityClass::IoprioClassRt.json()[14] == 'R');
    assert(IOPriorityClass::IoprioClassBe.json()[14] == 'B');
    assert(IOPriorityClass::IoprioClassIdle.json()[14] == 'I');
}

/// Adds a class to the numbers by JSON.
fn add_class(numbers: &mut StringHashMap<i64>, class: IOPriorityClass, number: i64)
    ensures
        final(numbers)@ == old(numbers)@.insert(class.json(), number),
{
    if let Ok(json) = class_to_json(class) {
        numbers.insert(json, number);
    }
}

/// The number of the class that a text denotes in JSON, or of no class.
pub open spec fn spec_io_priority_class<E>(json: Result<Seq<char>, Seq<char>>) -> Result<
    i64,
    InitErrorView<E>,
> {
    match json {
        Ok(text) => match class_number(text) {
            Some(number) => Ok(number),
            None => Err(InitProcessError::IoPriorityClass(text)),
        },
        Err(text) => Err(InitProcessError::IoPriorityClass(text)),
    }
}

/// The number of a class, from what the class is in JSON or why it could not be written:
/// an error if the text denotes no class, or if there is none.
pub fn io_priority_class<E>(json: Result<String, String>) -> (number: Result<
    i64,
    InitProcessError<E>,
>)
    ensures
        match number {
            Ok(number) => Ok(number),
            Err(err) => Err(err@),
        } == spec_io_priority_class::<E>(
            match json {
                Ok(text) => Ok(text@),
                Err(text) => Err(text@),
            },
        ),
{
    let mut numbers: StringHashMap<i64> = StringHashMap::new();
    add_class(&mut numbers, IOPriorityClass::IoprioClassRt, 1);
    add_class(&mut numbers, IOPriorityClass::IoprioClassBe, 2);
    add_class(&mut numbers, IOPriorityClass::IoprioClassIdle, 3);
    proof {
        law_class_number(IOPriorityClass::IoprioClassRt);
        law_class_number(IOPriorityClass::IoprioClassBe);
        law_class_number(IOPriorityClass::IoprioClassIdle);
    }
    match json {
        Ok(text) => {
            match numbers.get(text.as_str()) {
                Some(number) => Ok(*number),
                None => Err(InitProcessError::IoPriorityClass(text)),
            }
        },
        Err(text) => Err(InitProcessError::IoPriorityClass(text)),
    }
}

/// The class number and the priority to set, if the configuration has an I/O priority.
pub open spec fn spec_set_io_priority(io_priority: Option<LinuxIOPriority>) -> Option<(i64, i64)> {
    match io_priority {
        Some(io_priority) => Some((io_priority.class.number(), io_priority.priority)),
        None => None,
    }
}

/// The class number and the priority to set, if the configuration has an I/O priority.
/// Every class that it can have is known to the kernel.
pub fn set_io_priority<E>(io_priority: &Option<LinuxIOPriority>) -> (setting: Result<
    Option<(i64, i64)>,
    InitProcessError<E>,
>)
    ensures
        setting matches Ok(setting) && setting == spec_set_io_priority(*io_priority),
{
    match io_priority {
        Some(io_priority) => {
            proof {
                law_class_number(io_priority.class);
            }
            match io_priority_class::<E>(class_to_json(io_priority.class)) {
                Ok(number) => Ok(Some((number, io_priority.priority))),
                Err(err) => Err(err),
            }
        },
        None => Ok(None),
    }
}

/// A class is known by its name in JSON, to the letter; any other text is an error that
/// quotes it.
pub proof fn law_classes_are_known_by_name<E>(text: Seq<char>)
    ensures
        text == "\"IOPRIO_CLASS_RT\""@ ==> spec_io_priority_class::<E>(Ok(text)) == Ok::<
            i64,
            InitErrorView<E>,
        >(1),
        text == "\"IOPRIO_CLASS_BE\""@ ==> spec_io_priority_class::<E>(Ok(text)) == Ok::<
            i64,
            InitErrorView<E>,
        >(2),
        text == "\"IOPRIO_CLASS_IDLE\""@ ==> spec_io_priority_class::<E>(Ok(text)) == Ok::<
            i64,
            InitErrorView<E>,
        >(3),
        text != "\"IOPRIO_CLASS_RT\""@ && text != "\"IOPRIO_CLASS_BE\""@ && text
            != "\"IOPRIO_CLASS_IDLE\""@ ==> spec_io_priority_class::<E>(Ok(text)) == Err::<
            i64,
            InitErrorView<E>,
        >(InitProcessError::IoPriorityClass(text)),
        spec_io_priority_class::<E>(Err(text)) == Err::<i64, InitErrorView<E>>(
            InitProcessError::IoPriorityClass(text),
        ),
{
    law_class_number(IOPriorityClass::IoprioClassRt);
    law_class_number(IOPriorityClass::IoprioClassBe);
    law_class_number(IOPriorityClass::IoprioClassIdle);
}

/// What is set is the configured priority, in the configured class.
pub proof fn law_priority_is_set_as_configured(class: IOPriorityClass, priority: i64)
    ensures
        spec_set_io_priority(None) is None,
        spec_set_io_priority(Some(LinuxIOPriority { class, priority })) matches Some(setting)
            && setting.1 == priority && match class {
            IOPriorityClass::IoprioClassRt => setting.0 == 1,
            IOPriorityClass::IoprioClassBe => setting.0 == 2,
            IOPriorityClass::IoprioClassIdle => setting.0 == 3,
        },
{
}

} // verus!
