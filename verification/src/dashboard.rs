use vstd::prelude::*;

use crate::places::{exe_dir, exe_dir_of, ExeLocation, Place, PlaceSearch};
use crate::text::{decimal, join_path, joined, joined_path, opt_view, same_text, to_decimal, trim, trimmed, views};

verus! {

/// The core count line: `"{cores} núcleos / {threads} threads"`.
pub open spec fn cores_text(cores: nat, threads: nat) -> Seq<char> {
    decimal(cores) + " núcleos / "@ + decimal(threads) + " threads"@
}

fn cores_exec(cores: u64, threads: u64) -> (r: String)
    ensures
        r@ == cores_text(cores as nat, threads as nat),
{
    let mut r = to_decimal(cores);
    r.append(" núcleos / ");
    let t = to_decimal(threads);
    r.append(t.as_str());
    r.append(" threads");
    r
}

/// Whether a GPU name is worth showing: known and not the placeholder.
pub open spec fn shown_gpu(name: Seq<char>) -> bool {
    name.len() > 0 && name != "Desconhecida"@
}

/// The parts of the dashboard's one-line summary.
pub open spec fn summary_parts(
    cores: nat,
    threads: nat,
    ram: Option<Seq<char>>,
    gpu: Seq<char>,
) -> Seq<Seq<char>> {
    (if cores > 0 {
        seq![cores_text(cores, threads)]
    } else {
        seq![]
    }) + (match ram {
        Some(r) => seq![r],
        None => seq![],
    }) + (if shown_gpu(gpu) {
        seq![gpu]
    } else {
        seq![]
    })
}

/// The summary lists what is known, separated by `" · "`: cores and
/// threads, then memory, then the GPU name (unless it is empty or
/// `Desconhecida`).
pub proof fn law_summary_layout(cores: nat, threads: nat, ram: Seq<char>, gpu: Seq<char>)
    ensures
        cores_text(cores, threads) == decimal(cores) + " núcleos / "@ + decimal(threads)
            + " threads"@,
        cores > 0 && gpu.len() > 0 && gpu != "Desconhecida"@ ==> joined(
            summary_parts(cores, threads, Some(ram), gpu),
            " · "@,
        ) == cores_text(cores, threads) + " · "@ + ram + " · "@ + gpu,
        cores > 0 ==> joined(summary_parts(cores, threads, None, "Desconhecida"@), " · "@)
            == cores_text(cores, threads),
        joined(summary_parts(0, threads, Some(ram), ""@), " · "@) == ram,
        joined(summary_parts(0, threads, None, gpu), " · "@) == (if gpu.len() > 0 && gpu
            != "Desconhecida"@ {
            gpu
        } else {
            ""@
        }),
{
    reveal_strlit("");
    assert(""@ =~= Seq::<char>::empty());
    let c = cores_text(cores, threads);
    if cores > 0 && gpu.len() > 0 && gpu != "Desconhecida"@ {
        let ps = summary_parts(cores, threads, Some(ram), gpu);
        assert(ps =~= seq![c, ram, gpu]);
        assert(ps.drop_last() =~= seq![c, ram]);
        assert(ps.drop_last().drop_last() =~= seq![c]);
        assert(joined(seq![c], " · "@) == c);
        assert(joined(seq![c, ram], " · "@) == c + " · "@ + ram);
        assert(joined(ps, " · "@) == (c + " · "@ + ram) + " · "@ + gpu);
        assert((c + " · "@ + ram) + " · "@ + gpu =~= c + " · "@ + ram + " · "@ + gpu);
    }
    if cores > 0 {
        assert(summary_parts(cores, threads, None, "Desconhecida"@) =~= seq![c]);
    }
    assert(summary_parts(0, threads, Some(ram), ""@) =~= seq![ram]);
    if gpu.len() > 0 && gpu != "Desconhecida"@ {
        assert(summary_parts(0, threads, None, gpu) =~= seq![gpu]);
    } else {
        assert(summary_parts(0, threads, None, gpu) =~= Seq::<Seq<char>>::empty());
    }
}

/// The dashboard's one-line summary: cores and threads when known, the
/// memory part when there is one (`ram_part`, already rendered), and the GPU
/// name when known, joined by `" · "`.
pub fn short_summary(cores: u64, threads: u64, ram_part: Option<String>, gpu_name: &str) -> (r:
    String)
    ensures
        r@ == joined(
            summary_parts(
                cores as nat,
                threads as nat,
                opt_view(ram_part),
                gpu_name@,
            ),
            " · "@,
        ),
{
    let ghost ram_view = opt_view(ram_part);
    let mut parts: Vec<String> = Vec::new();
    if cores > 0 {
        parts.push(cores_exec(cores, threads));
    }
    match ram_part {
        Some(t) => parts.push(t),
        None => {},
    }
    if gpu_name.unicode_len() > 0 && !same_text(gpu_name, "Desconhecida") {
        parts.push(String::from_str(gpu_name));
    }
    assert(views(parts@) =~= summary_parts(cores as nat, threads as nat, ram_view, gpu_name@));
    assert(views(parts@).subrange(0, parts@.len() as int) =~= views(parts@));
    crate::text::join_from(&parts, 0, " · ")
}

/// The CPU card: the model, and when the core count is known, cores,
/// threads and the top clock (`freq_ghz`, already rendered) in GHz.
pub fn cpu_detail(model: &str, cores: u64, threads: u64, freq_ghz: &str) -> (r: String)
    ensures
        r@ == if cores > 0 {
            model@ + "\n"@ + cores_text(cores as nat, threads as nat) + " · "@ + freq_ghz@
                + " GHz"@
        } else {
            model@
        },
{
    if cores > 0 {
        let mut r = String::from_str(model);
        r.append("\n");
        let c = cores_exec(cores, threads);
        r.append(c.as_str());
        r.append(" · ");
        r.append(freq_ghz);
        r.append(" GHz");
        r
    } else {
        String::from_str(model)
    }
}

/// Text for a value that may be missing: a dash when it is empty.
pub open spec fn or_dash(s: Seq<char>) -> Seq<char> {
    if s.len() == 0 {
        "—"@
    } else {
        s
    }
}

/// The GPU card: the name, and when the video memory is known, its size in
/// GB (`vram_gb`, already rendered) and the driver version.
pub fn gpu_detail(name: &str, vram_mb: u64, vram_gb: &str, driver: &str) -> (r: String)
    ensures
        r@ == if vram_mb > 0 {
            name@ + "\n"@ + vram_gb@ + " GB VRAM · Driver "@ + or_dash(driver@)
        } else {
            name@
        },
{
    if vram_mb > 0 {
        let mut r = String::from_str(name);
        r.append("\n");
        r.append(vram_gb);
        r.append(" GB VRAM · Driver ");
        if driver.unicode_len() == 0 {
            r.append("—");
        } else {
            r.append(driver);
        }
        r
    } else {
        String::from_str(name)
    }
}

/// The memory card: the total in GB (`total_gb`, already rendered; none
/// when unknown) and the memory type when known.
pub fn ram_detail(total_gb: Option<String>, ram_type: &str) -> (r: String)
    ensures
        r@ == match total_gb {
            None => "—"@,
            Some(t) => if ram_type@.len() == 0 {
                t@ + " GB total"@
            } else {
                t@ + " GB · "@ + ram_type@
            },
        },
{
    match total_gb {
        None => String::from_str("—"),
        Some(t) => {
            let mut r = t;
            if ram_type.unicode_len() == 0 {
                r.append(" GB total");
            } else {
                r.append(" GB · ");
                r.append(ram_type);
            }
            r
        },
    }
}

/// One drive on the storage card.
pub struct DriveLine {
    pub model: String,
    /// The size in GB, already rendered.
    pub size_gb: String,
    pub kind: String,
}

impl View for DriveLine {
    type V = (Seq<char>, Seq<char>, Seq<char>);

    open spec fn view(&self) -> (Seq<char>, Seq<char>, Seq<char>) {
        (self.model@, self.size_gb@, self.kind@)
    }
}

/// One drive's line: trimmed model, size and kind.
pub open spec fn drive_text(d: (Seq<char>, Seq<char>, Seq<char>)) -> Seq<char> {
    trimmed(d.0) + " · "@ + d.1 + " GB · "@ + d.2
}

/// The storage card: one line per drive, or a dash when there is none.
pub fn storage_detail(drives: &Vec<DriveLine>) -> (r: String)
    ensures
        r@ == if drives@.len() == 0 {
            "—"@
        } else {
            joined(
                drives@.map_values(|d: DriveLine| drive_text(d@)),
                "\n"@,
            )
        },
{
    if drives.len() == 0 {
        return String::from_str("—");
    }
    let n = drives.len();
    let mut lines: Vec<String> = Vec::new();
    let mut i: usize = 0;
    while i < n
        invariant
            n == drives@.len(),
            i <= n,
            views(lines@) == drives@.map_values(|d: DriveLine| drive_text(d@)).take(i as int),
        decreases n - i,
    {
        let d = &drives[i];
        let mut l = trim(d.model.as_str());
        l.append(" · ");
        l.append(d.size_gb.as_str());
        l.append(" GB · ");
        l.append(d.kind.as_str());
        let ghost before = lines@;
        lines.push(l);
        assert(views(lines@) =~= views(before).push(drive_text(d@)));
        assert(drives@.map_values(|d: DriveLine| drive_text(d@)).take(i + 1) =~= drives@.map_values(
            |d: DriveLine| drive_text(d@),
        ).take(i as int).push(drive_text(d@)));
        i = i + 1;
    }
    assert(drives@.map_values(|d: DriveLine| drive_text(d@)).take(n as int) =~= drives@.map_values(
        |d: DriveLine| drive_text(d@),
    ));
    assert(views(lines@).subrange(0, n as int) =~= views(lines@));
    crate::text::join_from(&lines, 0, "\n")
}

/// Where the `index`-th spec card goes on the dashboard grid: two cards to a
/// row, left to right.
pub fn card_cell(index: u32) -> (r: (u32, u32))
    ensures
        r == (index % 2, index / 2),
{
    (index % 2, index / 2)
}

/// The network card: type, interface and MAC address of the active
/// connection, or a note that there is none.
pub fn net_detail(interface: &str, net_type: &str, mac: &str) -> (r: String)
    ensures
        r@ == if interface@.len() == 0 {
            "Sem conexão ativa"@
        } else {
            net_type@ + " · "@ + interface@ + "\n"@ + mac@
        },
{
    if interface.unicode_len() == 0 {
        String::from_str("Sem conexão ativa")
    } else {
        let mut r = String::from_str(net_type);
        r.append(" · ");
        r.append(interface);
        r.append("\n");
        r.append(mac);
        r
    }
}

/// The system card: distribution name and kernel version.
pub fn os_detail(os_pretty: &str, kernel: &str) -> (r: String)
    ensures
        r@ == os_pretty@ + "\nKernel "@ + kernel@,
{
    let mut r = String::from_str(os_pretty);
    r.append("\nKernel ");
    r.append(kernel);
    r
}

/// The firmware card: the BIOS version, or a dash when unknown.
pub fn bios_detail(version: &str) -> (r: String)
    ensures
        r@ == if version@.len() == 0 {
            "—"@
        } else {
            "BIOS "@ + version@
        },
{
    if version.unicode_len() == 0 {
        String::from_str("—")
    } else {
        String::from_str("BIOS ").concat(version)
    }
}


/// Where a bundled resource file is looked for, in order: two places by the
/// executable's directory when that is known, then the installed resources.
pub open spec fn resource_places(exe_dir: Option<Seq<char>>, name: Seq<char>) -> Seq<Seq<char>> {
    let near: Seq<Seq<char>> = match exe_dir {
        Some(d) => seq![
            joined_path(joined_path(d, "../../resources"@), name),
            joined_path(joined_path(d, "resources"@), name),
        ],
        None => seq![],
    };
    near + seq!["/opt/predator-sense/resources/"@ + name]
}

/// The places to look for the resource file `name`; the first that exists
/// is the resource.
pub fn resource_candidates(exe_dir: Option<&str>, name: &str) -> (r: Vec<String>)
    ensures
        views(r@) == resource_places(
            match exe_dir {
                Some(d) => Some(d@),
                None => None,
            },
            name@,
        ),
{
    let mut r: Vec<String> = Vec::new();
    match exe_dir {
        Some(d) => {
            let up = join_path(d, "../../resources");
            r.push(join_path(up.as_str(), name));
            let here = join_path(d, "resources");
            r.push(join_path(here.as_str(), name));
        },
        None => {},
    }
    r.push(String::from_str("/opt/predator-sense/resources/").concat(name));
    assert(views(r@) =~= resource_places(
        match exe_dir {
            Some(d) => Some(d@),
            None => None,
        },
        name@,
    ));
    r
}


/// The places searched for the resource `name`: none when the executable's
/// path has no parent directory, else `resource_places`, none of them made
/// canonical.
pub open spec fn resource_search_places(exe: ExeLocation, name: Seq<char>) -> Seq<
    (Seq<char>, bool),
> {
    match exe {
        ExeLocation::NoParent => seq![],
        _ => resource_places(exe_dir_of(exe), name).map_values(|p: Seq<char>| (p, false)),
    }
}

/// The search for the bundled resource `name`: the first of its places that
/// exists.
pub fn resource_search(exe: &ExeLocation, name: &str) -> (r: PlaceSearch)
    ensures
        r.places() == resource_search_places(*exe, name@),
        r.answers() == Seq::<bool>::empty(),
{
    let mut places: Vec<Place> = Vec::new();
    match exe {
        ExeLocation::NoParent => {},
        _ => {
            let paths = resource_candidates(exe_dir(exe), name);
            let n = paths.len();
            let mut i: usize = 0;
            while i < n
                invariant
                    n == paths@.len(),
                    i <= n,
                    places@.map_values(|p: Place| p@) == views(paths@).take(i as int).map_values(
                        |p: Seq<char>| (p, false),
                    ),
                decreases n - i,
            {
                let ghost before = places@;
                places.push(Place { path: paths[i].clone(), canonicalize: false });
                assert(places@.map_values(|p: Place| p@) =~= before.map_values(|p: Place| p@).push(
                    (paths@[i as int]@, false),
                ));
                assert(views(paths@).take(i + 1).map_values(|p: Seq<char>| (p, false))
                    =~= views(paths@).take(i as int).map_values(|p: Seq<char>| (p, false)).push(
                    (paths@[i as int]@, false),
                ));
                i = i + 1;
            }
            assert(views(paths@).take(n as int) =~= views(paths@));
        },
    }
    let ghost pv = places@.map_values(|p: Place| p@);
    assert(pv =~= resource_search_places(*exe, name@));
    PlaceSearch::new(places)
}

} // verus!
