//! The connect screen: choosing a remembered server, or typing in a new
//! one to remember.

use vstd::prelude::*;
use crate::game::{char_of_key, key_char};
use crate::scenes::{KEY_DOWN, KEY_ENTER, KEY_UP};
use crate::textbox::{str_input, TextBox};

verus! {

/// The remembered server addresses, most recent last, and the file they
/// are saved in.
#[derive(Debug)]
pub struct Config {
    recent_ips: Vec<String>,
    pub file_name: String,
}

/// The values of a sequence of strings.
pub open spec fn views(s: Seq<String>) -> Seq<Seq<char>> {
    s.map_values(|x: String| x@)
}

impl Config {
    pub closed spec fn ips(&self) -> Seq<Seq<char>> {
        views(self.recent_ips@)
    }

    pub closed spec fn file(&self) -> Seq<char> {
        self.file_name@
    }

    /// Settings holding `recent_ips`, saved in `file_name`.
    pub fn with_ips(recent_ips: Vec<String>, file_name: String) -> (c: Config)
        ensures
            c.ips() == views(recent_ips@),
            c.file() == file_name@,
    {
        Config { recent_ips, file_name }
    }

    /// The remembered addresses.
    pub fn recent_ips(&self) -> (r: &Vec<String>)
        ensures
            views(r@) == self.ips(),
    {
        &self.recent_ips
    }

    /// The file the settings are saved in.
    pub fn file_name(&self) -> (r: &String)
        ensures
            r@ == self.file(),
    {
        &self.file_name
    }

    /// Remembers `ip` (the settings are then saved, outside).
    pub fn add(&mut self, ip: &str)
        ensures
            final(self).ips() == old(self).ips().push(ip@),
            final(self).file() == old(self).file(),
    {
        let ghost before = self.recent_ips@;
        self.recent_ips.push(ip.to_owned());
        assert(views(self.recent_ips@) =~= views(before).push(ip@));
    }
}

/// The connect screen.
pub struct ConnectScene {
    config: Config,
    selected_ip: usize,
    give_next_scene: bool,
    add_ip: bool,
    add_ip_buffer: String,
}

impl ConnectScene {
    pub closed spec fn ips(&self) -> Seq<Seq<char>> {
        self.config.ips()
    }

    pub closed spec fn file(&self) -> Seq<char> {
        self.config.file()
    }

    pub closed spec fn selected(&self) -> nat {
        self.selected_ip as nat
    }

    pub closed spec fn done(&self) -> bool {
        self.give_next_scene
    }

    pub closed spec fn adding(&self) -> bool {
        self.add_ip
    }

    pub closed spec fn buffer(&self) -> Seq<char> {
        self.add_ip_buffer@
    }

    /// The screen over the saved settings, first entry selected.
    pub fn new(config: Config) -> (s: ConnectScene)
        ensures
            s.ips() == config.ips(),
            s.file() == config.file(),
            s.selected() == 0,
            !s.done(),
            !s.adding(),
            s.buffer().len() == 0,
    {
        ConnectScene {
            config,
            selected_ip: 0,
            give_next_scene: false,
            add_ip: false,
            add_ip_buffer: String::new(),
        }
    }

    /// One key press. Up and down move the selection, over the entries and
    /// one place past them ("add"). Enter, while a new address is typed,
    /// remembers it (`true` is returned: the settings must be saved);
    /// otherwise, on "add" or with nothing remembered, starts typing a new
    /// address; otherwise confirms the selected server. Any other key edits
    /// the typed address (`;` stands for `:`).
    pub fn handle_key(&mut self, key: u32) -> (save: bool)
        requires
            old(self).ips().len() < usize::MAX,
        ensures
            final(self).file() == old(self).file(),
            key == KEY_UP ==> !save && final(self).selected() == (if old(self).selected() > 0 {
                old(self).selected() - 1
            } else {
                0
            }) && final(self).ips() == old(self).ips() && final(self).adding() == old(self).adding() && final(self).done() == old(self).done() && final(self).buffer() == old(self).buffer(),
            key == KEY_DOWN ==> !save && final(self).selected() == (if old(self).selected() <= old(self).ips().len() {
                old(self).selected() + 1
            } else {
                old(self).selected()
            }) && final(self).ips() == old(self).ips() && final(self).adding() == old(self).adding() && final(self).done() == old(self).done() && final(self).buffer() == old(self).buffer(),
            key == KEY_ENTER && old(self).adding() ==> save && final(self).ips() == old(self).ips().push(old(self).buffer()) && !final(self).adding() && final(self).selected()
                == old(self).selected() && final(self).done() == old(self).done() && final(self).buffer() == old(self).buffer(),
            key == KEY_ENTER && !old(self).adding() && (old(self).selected() == old(self).ips().len() || old(self).ips().len() == 0) ==> !save && final(self).adding()
                && final(self).selected() == 0 && final(self).ips() == old(self).ips() && final(self).done() == old(self).done() && final(self).buffer() == old(self).buffer(),
            key == KEY_ENTER && !old(self).adding() && !(old(self).selected() == old(self).ips().len() || old(self).ips().len() == 0) ==> !save && final(self).done()
                && final(self).selected() == old(self).selected() && final(self).ips() == old(self).ips() && !final(self).adding() && final(self).buffer() == old(self).buffer(),
            key != KEY_UP && key != KEY_DOWN && key != KEY_ENTER ==> !save && final(self).buffer()
                == str_input(
                old(self).buffer(),
                if key_char(key) == ';' {
                    ':'
                } else {
                    key_char(key)
                },
            ) && final(self).selected() == old(self).selected() && final(self).ips() == old(self).ips() && final(self).adding() == old(self).adding() && final(self).done() == old(self).done(),
    {
        if key == KEY_UP {
            if self.selected_ip > 0 {
                self.selected_ip = self.selected_ip - 1;
            }
            false
        } else if key == KEY_DOWN {
            if self.selected_ip <= self.config.recent_ips.len() {
                self.selected_ip = self.selected_ip + 1;
            }
            false
        } else if key == KEY_ENTER {
            if self.add_ip {
                self.config.add(self.add_ip_buffer.as_str());
                self.add_ip = false;
                true
            } else if self.selected_ip == self.config.recent_ips.len()
                || self.config.recent_ips.len() == 0 {
                self.add_ip = true;
                self.selected_ip = 0;
                false
            } else {
                self.give_next_scene = true;
                false
            }
        } else {
            let mut unicode = char_of_key(key);
            if unicode == ';' {
                unicode = ':';
            }
            self.add_ip_buffer = TextBox::process_input_str(&mut self.add_ip_buffer, unicode);
            false
        }
    }

    /// The address of the selected server.
    pub fn selected_server(&self) -> (r: &String)
        requires
            self.selected() < self.ips().len(),
        ensures
            r@ == self.ips()[self.selected() as int],
    {
        &self.config.recent_ips[self.selected_ip]
    }

    /// Whether a server has been chosen.
    pub fn has_next_scene(&self) -> (r: bool)
        ensures
            r == self.done(),
    {
        self.give_next_scene
    }

    /// The settings.
    pub fn config(&self) -> (r: &Config)
        ensures
            r.ips() == self.ips(),
            r.file() == self.file(),
    {
        &self.config
    }

    /// The selected position.
    pub fn selected_ip(&self) -> (r: usize)
        ensures
            r == self.selected(),
    {
        self.selected_ip
    }

    /// Whether a new address is being typed.
    pub fn add_ip(&self) -> (r: bool)
        ensures
            r == self.adding(),
    {
        self.add_ip
    }

    /// The address being typed.
    pub fn add_ip_buffer(&self) -> (r: &String)
        ensures
            r@ == self.buffer(),
    {
        &self.add_ip_buffer
    }
}

} // verus!
