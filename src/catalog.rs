//! Configuration of a catalog run, and what it shows: table cells, notes and the
//! frames of the progress indicator.

use vstd::prelude::*;
use crate::ranking::RankedEntry;
use crate::text::{append_decimal, decimal};

verus! {

/// Where the local store lies and where the registry is fetched from.
#[derive(Clone, Debug)]
pub struct HubConfig {
    pub store_dir: String,
    pub registry_url: String,
}

impl Default for HubConfig {
    /// The shared store under `/usr/local/share/dothub` and the registry of the hub's
    /// own repository.
    fn default() -> (r: Self)
        ensures
            r.store_dir@ == "/usr/local/share/dothub"@,
            r.registry_url@ == "https://raw.githubusercontent.com/huncholane/dothub/refs/heads/main/hub.yml"@,
    {
        HubConfig {
            store_dir: String::from_str("/usr/local/share/dothub"),
            registry_url: String::from_str(
                "https://raw.githubusercontent.com/huncholane/dothub/refs/heads/main/hub.yml",
            ),
        }
    }
}

impl HubConfig {
    /// The registry to fetch: the override where one is given, else the configured one.
    pub fn registry_source(&self, override_url: Option<String>) -> (r: String)
        ensures
            r@ == match override_url {
                Some(u) => u@,
                None => self.registry_url@,
            },
    {
        match override_url {
            Some(u) => u,
            None => self.registry_url.clone(),
        }
    }
}

/// Where the caller may learn how to create an access token.
pub fn token_help_url() -> (r: &'static str)
    ensures
        r@ == "https://github.com/settings/personal-access-tokens"@,
{
    "https://github.com/settings/personal-access-tokens"
}

/// A warning shown below the catalog.
#[derive(Clone, Copy, Debug, PartialEq, Eq, Structural)]
pub enum Note {
    /// No credential was given: star counts came one request at a time.
    SetToken,
    /// A credential was given but the bulk path failed.
    BulkFellBack,
}

/// The warnings to show: one when no credential was given, one when the bulk path
/// fell back to the per-item path, in that order.
pub fn catalog_notes(has_credential: bool, bulk_failed: bool) -> (r: Vec<Note>)
    ensures
        r@ == if !has_credential { seq![Note::SetToken] } else { seq![] } + if bulk_failed {
            seq![Note::BulkFellBack]
        } else {
            seq![]
        },
{
    let mut r: Vec<Note> = Vec::new();
    if !has_credential {
        r.push(Note::SetToken);
    }
    if bulk_failed {
        r.push(Note::BulkFellBack);
    }
    assert(r@ =~= if !has_credential { seq![Note::SetToken] } else { seq![] } + if bulk_failed {
        seq![Note::BulkFellBack]
    } else {
        seq![]
    });
    r
}

/// The cells of a catalog table row: rank, stars, installed and source.
pub open spec fn row_cells(rank: nat, e: RankedEntry) -> Seq<Seq<char>> {
    seq![decimal(rank), decimal(e.stars as nat), if e.installed { "y"@ } else { "n"@ }, e.source_url@]
}

/// The body of the catalog table: for each row, in order, its 1-based rank, its star
/// count, `y` or `n` for whether it is installed, and its source URL.
pub fn table_cells(rows: &Vec<RankedEntry>) -> (r: Vec<Vec<String>>)
    ensures
        r@.len() == rows@.len(),
        forall|i: int| 0 <= i < r@.len() ==> (#[trigger] r@[i]).deep_view() == row_cells((i + 1) as nat, rows@[i]),
{
    let mut r: Vec<Vec<String>> = Vec::new();
    let mut i: usize = 0;
    while i < rows.len()
        invariant
            i <= rows@.len(),
            r@.len() == i,
            forall|k: int| 0 <= k < i ==> (#[trigger] r@[k]).deep_view() == row_cells((k + 1) as nat, rows@[k]),
        decreases rows@.len() - i,
    {
        let e = &rows[i];
        let mut rank = String::new();
        append_decimal(&mut rank, (i as u64) + 1);
        let mut stars = String::new();
        append_decimal(&mut stars, e.stars);
        let installed = if e.installed {
            String::from_str("y")
        } else {
            String::from_str("n")
        };
        let cells = vec![rank, stars, installed, e.source_url.clone()];
        assert(cells.deep_view() =~= row_cells((i + 1) as nat, rows@[i as int]));
        r.push(cells);
        i += 1;
    }
    r
}

/// The frames of the progress indicator, shown in turn.
pub open spec fn frame_text(k: nat) -> Seq<char> {
    if k == 0 {
        "-"@
    } else if k == 1 {
        "\\"@
    } else if k == 2 {
        "|"@
    } else {
        "/"@
    }
}

/// The frame the progress indicator shows at a tick: the four frames in turn.
pub fn spinner_frame(tick: usize) -> (r: &'static str)
    ensures
        r@ == frame_text((tick % 4) as nat),
{
    let k = tick % 4;
    if k == 0 {
        "-"
    } else if k == 1 {
        "\\"
    } else if k == 2 {
        "|"
    } else {
        "/"
    }
}

} // verus!
