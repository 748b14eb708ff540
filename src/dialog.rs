use vstd::prelude::*;
use vstd::string::StringExecFns;

verus! {

/// A key pressed inside an open alert dialog, as far as the dialog cares.
#[derive(Debug, Clone, Copy, PartialEq, Eq, Structural)]
pub enum DialogKey {
    Escape,
    Other,
}

/// The state of an alert dialog: its element id, the ids of its title and
/// description once they are shown, and whether it is open.
#[derive(Debug, Clone)]
pub struct AlertDialogState {
    id: String,
    title_id: Option<String>,
    description_id: Option<String>,
    open: bool,
}

/// The view of an optional string.
pub open spec fn opt_view(s: Option<String>) -> Option<Seq<char>> {
    match s {
        Some(x) => Some(x@),
        None => None,
    }
}

fn suffixed(head: &String, tail: &str) -> (r: String)
    ensures
        r@ == head@ + tail@,
{
    head.clone().concat(tail)
}

impl AlertDialogState {
    pub closed spec fn spec_id(&self) -> Seq<char> {
        self.id@
    }

    pub closed spec fn spec_title_id(&self) -> Option<Seq<char>> {
        opt_view(self.title_id)
    }

    pub closed spec fn spec_description_id(&self) -> Option<Seq<char>> {
        opt_view(self.description_id)
    }

    pub closed spec fn spec_open(&self) -> bool {
        self.open
    }

    /// A dialog with element id `id`, open or closed as `open` says, with no
    /// title or description yet.
    pub fn new(id: String, open: bool) -> (r: Self)
        ensures
            r.spec_id() == id@,
            r.spec_open() == open,
            r.spec_title_id() is None,
            r.spec_description_id() is None,
    {
        AlertDialogState { id, title_id: None, description_id: None, open }
    }

    pub fn id(&self) -> (r: &str)
        ensures
            r@ == self.spec_id(),
    {
        self.id.as_str()
    }

    pub fn is_open(&self) -> (r: bool)
        ensures
            r == self.spec_open(),
    {
        self.open
    }

    pub fn title_id(&self) -> (r: Option<String>)
        ensures
            opt_view(r) == self.spec_title_id(),
    {
        match &self.title_id {
            Some(t) => Some(t.clone()),
            None => None,
        }
    }

    pub fn description_id(&self) -> (r: Option<String>)
        ensures
            opt_view(r) == self.spec_description_id(),
    {
        match &self.description_id {
            Some(t) => Some(t.clone()),
            None => None,
        }
    }

    /// Records the title's id: `id` when given, else the dialog's id
    /// followed by `:title`.
    pub fn set_title(&mut self, id: Option<String>)
        ensures
            final(self).spec_title_id() == Some(
                match id {
                    Some(i) => i@,
                    None => old(self).spec_id() + ":title"@,
                },
            ),
            final(self).spec_id() == old(self).spec_id(),
            final(self).spec_description_id() == old(self).spec_description_id(),
            final(self).spec_open() == old(self).spec_open(),
    {
        let t = match id {
            Some(i) => i,
            None => suffixed(&self.id, ":title"),
        };
        self.title_id = Some(t);
    }

    /// Records the description's id: `id` when given, else the dialog's id
    /// followed by `:description`.
    pub fn set_description(&mut self, id: Option<String>)
        ensures
            final(self).spec_description_id() == Some(
                match id {
                    Some(i) => i@,
                    None => old(self).spec_id() + ":description"@,
                },
            ),
            final(self).spec_id() == old(self).spec_id(),
            final(self).spec_title_id() == old(self).spec_title_id(),
            final(self).spec_open() == old(self).spec_open(),
    {
        let d = match id {
            Some(i) => i,
            None => suffixed(&self.id, ":description"),
        };
        self.description_id = Some(d);
    }

    /// Sets whether the dialog is open, and returns the new value for an
    /// observer.
    pub fn set_open(&mut self, open: bool) -> (r: bool)
        ensures
            r == open,
            final(self).spec_open() == open,
            final(self).spec_id() == old(self).spec_id(),
            final(self).spec_title_id() == old(self).spec_title_id(),
            final(self).spec_description_id() == old(self).spec_description_id(),
    {
        self.open = open;
        open
    }

    /// Opens the dialog, and returns the new value for an observer.
    pub fn open(&mut self) -> (r: bool)
        ensures
            r == true,
            final(self).spec_open(),
            final(self).spec_id() == old(self).spec_id(),
            final(self).spec_title_id() == old(self).spec_title_id(),
            final(self).spec_description_id() == old(self).spec_description_id(),
    {
        self.set_open(true)
    }

    /// Closes the dialog, and returns the new value for an observer.
    pub fn close(&mut self) -> (r: bool)
        ensures
            r == false,
            !final(self).spec_open(),
            final(self).spec_id() == old(self).spec_id(),
            final(self).spec_title_id() == old(self).spec_title_id(),
            final(self).spec_description_id() == old(self).spec_description_id(),
    {
        self.set_open(false)
    }

    /// Handles a key inside the dialog: Escape closes it. Returns the new
    /// open value when the key changed it, for an observer.
    pub fn handle_key(&mut self, key: DialogKey) -> (r: Option<bool>)
        ensures
            key is Escape ==> r == Some(false) && !final(self).spec_open(),
            key is Other ==> r is None && final(self).spec_open() == old(self).spec_open(),
            final(self).spec_id() == old(self).spec_id(),
            final(self).spec_title_id() == old(self).spec_title_id(),
            final(self).spec_description_id() == old(self).spec_description_id(),
    {
        match key {
            DialogKey::Escape => Some(self.close()),
            DialogKey::Other => None,
        }
    }

    /// The value of the `data-state` attribute.
    pub fn data_state(&self) -> (r: &'static str)
        ensures
            r@ == if self.spec_open() {
                "open"@
            } else {
                "closed"@
            },
    {
        if self.open {
            "open"
        } else {
            "closed"
        }
    }

    /// The id that labels the dialog: `over` when given, else the title's.
    pub fn labelled_by(&self, over: Option<String>) -> (r: Option<String>)
        ensures
            opt_view(r) == match over {
                Some(o) => Some(o@),
                None => self.spec_title_id(),
            },
    {
        match over {
            Some(o) => Some(o),
            None => self.title_id(),
        }
    }

    /// The id that describes the dialog: `over` when given, else the
    /// description's.
    pub fn described_by(&self, over: Option<String>) -> (r: Option<String>)
        ensures
            opt_view(r) == match over {
                Some(o) => Some(o@),
                None => self.spec_description_id(),
            },
    {
        match over {
            Some(o) => Some(o),
            None => self.description_id(),
        }
    }
}

} // verus!
