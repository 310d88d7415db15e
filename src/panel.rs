//! The weather window's state outside its widgets: whether a fetch is in
//! flight, the status line, and the in-memory list of fetched records.
use vstd::prelude::*;
use vstd::string::StringExecFns;

verus! {

pub struct WeatherPanel<R> {
    pub loading: bool,
    pub status: String,
    pub entries: Vec<R>,
}

impl<R> WeatherPanel<R> {
    /// An idle panel showing `Ready` over the records loaded from the log.
    pub fn new(entries: Vec<R>) -> (r: WeatherPanel<R>)
        ensures
            !r.loading,
            r.status@ == "Ready"@,
            r.entries == entries,
    {
        WeatherPanel { loading: false, status: String::from_str("Ready"), entries }
    }

    /// A fetch was handed to the background.
    pub fn begin_fetch(&mut self)
        ensures
            final(self).loading,
            final(self).status@ == "Fetching\u{2026}"@,
            final(self).entries == old(self).entries,
    {
        self.loading = true;
        self.status = String::from_str("Fetching\u{2026}");
    }

    /// A fetch ended in error: its text becomes the status.
    pub fn fetch_failed(&mut self, err: &str)
        ensures
            !final(self).loading,
            final(self).status@ == "Error: "@ + err@,
            final(self).entries == old(self).entries,
    {
        self.loading = false;
        self.status = String::from_str("Error: ").concat(err);
    }

    /// A fetch succeeded with `record`, described by `summary`; `log_error`
    /// is why appending it to the log file failed, if it did. The record
    /// joins the list either way.
    pub fn fetch_succeeded(&mut self, record: R, summary: String, log_error: Option<String>)
        ensures
            !final(self).loading,
            final(self).entries@ == old(self).entries@.push(record),
            final(self).status@ == match log_error {
                None => summary@,
                Some(e) => "Saved result, but failed to log: "@ + e@,
            },
    {
        self.loading = false;
        self.status = match log_error {
            None => summary,
            Some(e) => String::from_str("Saved result, but failed to log: ").concat(e.as_str()),
        };
        self.entries.push(record);
    }

    /// The CSV export ended: `Ok` with where the log lives, or the reason it
    /// failed. The list is untouched.
    pub fn export_finished(&mut self, outcome: Result<String, String>)
        ensures
            final(self).loading == old(self).loading,
            final(self).entries == old(self).entries,
            final(self).status@ == match outcome {
                Ok(p) => "Exported CSV alongside log at "@ + p@,
                Err(e) => "Export failed: "@ + e@,
            },
    {
        self.status = match outcome {
            Ok(p) => String::from_str("Exported CSV alongside log at ").concat(p.as_str()),
            Err(e) => String::from_str("Export failed: ").concat(e.as_str()),
        };
    }

    /// Truncating the log file ended: on success the list is emptied too,
    /// on failure it is kept and the reason shown.
    pub fn clear_finished(&mut self, outcome: Result<(), String>)
        ensures
            final(self).loading == old(self).loading,
            outcome is Ok ==> final(self).entries@.len() == 0 && final(self).status@ == "Log cleared"@,
            outcome matches Err(e) ==> final(self).entries == old(self).entries
                && final(self).status@ == "Clear failed: "@ + e@,
    {
        match outcome {
            Ok(()) => {
                self.entries.clear();
                self.status = String::from_str("Log cleared");
            },
            Err(e) => {
                self.status = String::from_str("Clear failed: ").concat(e.as_str());
            },
        }
    }
}

} // verus!
