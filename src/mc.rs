//! One row of the container listing.
use vstd::prelude::*;
use crate::text::{capitalize_first, capitalized, same_text};

verus! {

/// The abstract content of a [`Container`] record.
pub struct ContainerView {
    pub name: Seq<char>,
    pub port: Seq<char>,
    pub status: Seq<char>,
    pub created: Seq<char>,
    pub level_type: Seq<char>,
    pub game_mode: Seq<char>,
}

/// A managed server as the runtime reports it.
#[derive(Debug, Clone)]
pub struct Container {
    /// Name without the managed-container prefix.
    pub name: String,
    /// Published host port, empty where none is published.
    pub port: String,
    /// Status text of the runtime.
    pub status: String,
    /// Creation time text of the runtime.
    pub created: String,
    /// Level type label, first character upper-cased.
    pub level_type: String,
    /// Game mode label, first character upper-cased.
    pub game_mode: String,
}

impl View for Container {
    type V = ContainerView;

    open spec fn view(&self) -> ContainerView {
        ContainerView {
            name: self.name@,
            port: self.port@,
            status: self.status@,
            created: self.created@,
            level_type: self.level_type@,
            game_mode: self.game_mode@,
        }
    }
}

/// The record made of six columns: name, port, status, creation time, level
/// type and game mode, the last two with their first character upper-cased.
pub open spec fn record_of(cols: Seq<Seq<char>>) -> ContainerView {
    ContainerView {
        name: cols[0],
        port: cols[1],
        status: cols[2],
        created: cols[3],
        level_type: capitalized(cols[4]),
        game_mode: capitalized(cols[5]),
    }
}

/// The property of a record that `get` returns for a property name; empty for
/// an unknown name.
pub open spec fn property_of(c: ContainerView, property: Seq<char>) -> Seq<char> {
    if property == "name"@ {
        c.name
    } else if property == "port"@ {
        c.port
    } else if property == "status"@ {
        c.status
    } else if property == "created"@ {
        c.created
    } else if property == "level_type"@ {
        c.level_type
    } else if property == "game_mode"@ {
        c.game_mode
    } else {
        Seq::empty()
    }
}

impl Container {
    /// Builds a record from the first six columns of a listing row.
    pub fn new(container: Vec<&str>) -> (r: Container)
        requires
            container.len() >= 6,
        ensures
            r@ == record_of(container@.map_values(|c: &str| c@)),
    {
        Container {
            name: String::from_str(container[0]),
            port: String::from_str(container[1]),
            status: String::from_str(container[2]),
            created: String::from_str(container[3]),
            level_type: capitalize_first(container[4]),
            game_mode: capitalize_first(container[5]),
        }
    }

    /// The named property: one of `name`, `port`, `status`, `created`,
    /// `level_type`, `game_mode`; the empty string for any other name.
    pub fn get(&self, property: &str) -> (r: &str)
        ensures
            r@ == property_of(self@, property@),
    {
        if same_text(property, "name") {
            self.name.as_str()
        } else if same_text(property, "port") {
            self.port.as_str()
        } else if same_text(property, "status") {
            self.status.as_str()
        } else if same_text(property, "created") {
            self.created.as_str()
        } else if same_text(property, "level_type") {
            self.level_type.as_str()
        } else if same_text(property, "game_mode") {
            self.game_mode.as_str()
        } else {
            proof {
                reveal_strlit("");
            }
            ""
        }
    }
}

} // verus!
