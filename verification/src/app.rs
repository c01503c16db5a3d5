//! Top-level application state: which top-level screen is showing, the
//! sidebar selection, and the editor machine behind it.
use vstd::prelude::*;

use crate::nav::Navigator;

verus! {

/// The top-level screen of the application.
#[derive(Debug, Clone, Copy, PartialEq, Eq, Structural)]
pub enum CurrentScreen {
    Home,
    BitcoinConfig,
    FileExplorer,
    Exiting,
}

/// The application: the showing screen, the sidebar selection, the path of
/// the last loaded configuration file, and the editor machine.
pub struct App {
    pub current_screen: CurrentScreen,
    pub sidebar_index: usize,
    pub bitcoin_conf_path: Option<String>,
    pub explorer: Navigator,
}

impl App {
    /// A fresh application on the home screen.
    pub fn new() -> (r: App)
        ensures
            r.current_screen == CurrentScreen::Home,
            r.sidebar_index == 0,
            r.bitcoin_conf_path is None,
            r.explorer.wf(),
    {
        App {
            current_screen: CurrentScreen::Home,
            sidebar_index: 0,
            bitcoin_conf_path: None,
            explorer: Navigator::new(),
        }
    }

    /// Shows the screen the sidebar selection points at; other indices
    /// leave the screen as it is.
    pub fn toggle_menu(&mut self)
        ensures
            old(self).sidebar_index == 0 ==> final(self).current_screen == CurrentScreen::Home,
            old(self).sidebar_index == 1 ==> final(self).current_screen
                == CurrentScreen::BitcoinConfig,
            old(self).sidebar_index > 1 ==> final(self).current_screen == old(
                self,
            ).current_screen,
            final(self).sidebar_index == old(self).sidebar_index,
            final(self).bitcoin_conf_path == old(self).bitcoin_conf_path,
            final(self).explorer == old(self).explorer,
    {
        match self.sidebar_index {
            0 => {
                self.current_screen = CurrentScreen::Home;
            },
            1 => {
                self.current_screen = CurrentScreen::BitcoinConfig;
            },
            _ => {},
        }
    }
}

impl Default for App {
    fn default() -> (r: Self)
        ensures
            r.current_screen == CurrentScreen::Home,
            r.sidebar_index == 0,
            r.bitcoin_conf_path is None,
            r.explorer.wf(),
    {
        Self::new()
    }
}

} // verus!
