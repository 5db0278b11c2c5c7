use vstd::prelude::*;

verus! {

/// Why declaring a queue can be refused.
#[derive(Clone, Copy, Debug, PartialEq, Eq, Structural)]
pub enum QueueError {
    Rejected,
}

/// Options for declaring a queue, bundled under names instead of a row of
/// loose flags.
pub struct QueueOptions<'a> {
    pub name: &'a str,
    pub durable: bool,
    pub delete_on_exit: bool,
    pub exclusive: bool,
    pub no_wait: bool,
    pub arguments: Option<&'a [(&'a str, &'a str)]>,
}

impl Default for QueueOptions<'_> {
    /// The conventional queue: named `default`, transient, shared, declared
    /// synchronously and without extra arguments.
    fn default() -> (r: Self)
        ensures
            r.name@ == "default"@,
            !r.durable,
            !r.delete_on_exit,
            !r.exclusive,
            !r.no_wait,
            r.arguments is None,
    {
        QueueOptions {
            name: "default",
            durable: false,
            delete_on_exit: false,
            exclusive: false,
            no_wait: false,
            arguments: None,
        }
    }
}

/// Declares a queue from bundled options; every declaration is accepted.
pub fn create_queue(options: QueueOptions) -> (r: Result<(), QueueError>)
    ensures
        r == Ok::<(), QueueError>(()),
{
    let _ = options;
    Ok(())
}

/// Declares a queue from a row of loose flags, by bundling them into
/// `QueueOptions` first.
pub fn create_queue_from_flags<'a>(
    name: &'a str,
    durable: bool,
    delete_on_exit: bool,
    exclusive: bool,
    no_wait: bool,
    arguments: Option<&'a [(&'a str, &'a str)]>,
) -> (r: Result<(), QueueError>)
    ensures
        r == Ok::<(), QueueError>(()),
{
    create_queue(QueueOptions { name, durable, delete_on_exit, exclusive, no_wait, arguments })
}

} // verus!
