use vstd::prelude::*;

verus! {

/// Why observation of a component's log events changed.
#[derive(Copy, Clone, PartialEq, Eq, Structural, Debug)]
pub enum LogEventNotificationType {
    /// There isn't currently a component that matches this name.
    ComponentNotReady,
    /// Component has been removed from topology.
    ComponentWentAway,
    /// Component came back, typically via a configuration reload.
    ComponentCameBack,
}

/// A notification regarding observation of a component's log events.
#[derive(Debug, PartialEq, Eq)]
pub struct LogEventNotification {
    /// Name of the component associated with the notification.
    pub component_name: String,
    /// What changed for that component.
    pub notification: LogEventNotificationType,
}

impl LogEventNotification {
    /// A notification for the named component.
    pub fn new(component_name: &str, notification: LogEventNotificationType) -> (r:
        LogEventNotification)
        ensures
            r.component_name@ == component_name@,
            r.notification == notification,
    {
        LogEventNotification { component_name: component_name.to_owned(), notification }
    }
}

} // verus!
