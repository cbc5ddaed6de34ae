use vstd::prelude::*;

verus! {

/// The dock of the app bar.
pub struct Dock;

/// The application launcher of the app bar.
pub struct AppLauncher;

/// A status widget of the app bar.
pub struct SystemWidget;

/// The app-bar shell client.
pub struct AppBar;

impl AppBar {
    pub fn new() -> (b: Self) {
        AppBar
    }
}

/// A named visual theme.
pub struct Theme {
    pub name: String,
}

/// How a container lays out its children.
#[derive(Debug, Clone, Copy, PartialEq, Eq, Structural)]
pub enum LayoutDirection {
    Horizontal,
    Vertical,
}

/// Horizontal alignment of text.
#[derive(Debug, Clone, Copy, PartialEq, Eq, Structural)]
pub enum TextAlign {
    Left,
    Center,
    Right,
}

/// Failures of the compositor's task queue.
pub enum AsyncError {
    Disconnected,
    TaskFailed,
    Channel(String),
}

impl AsyncError {
    /// A readable description; a channel error carries its own text.
    pub fn message(&self) -> (s: String)
        ensures
            self matches AsyncError::Disconnected ==> s@ == "Task queue is disconnected"@,
            self matches AsyncError::TaskFailed ==> s@ == "Task execution failed"@,
            self matches AsyncError::Channel(m) ==> s@ == m@,
    {
        match self {
            AsyncError::Disconnected => String::from_str("Task queue is disconnected"),
            AsyncError::TaskFailed => String::from_str("Task execution failed"),
            AsyncError::Channel(m) => m.clone(),
        }
    }
}

} // verus!
