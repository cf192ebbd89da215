use vstd::prelude::*;

use crate::cli::{Cli, Commands, NonMediaArg, ShowMovieArgs};
use crate::scanner::NonMediaPolicy;
use crate::text::{chars_of, copy_str, lower_seq, push_char, to_ascii_lowercase, trim, trim_seq};

verus! {

/// Whether a run organizes shows or movies.
#[derive(Debug, Clone, Copy, PartialEq, Eq)]
pub enum MediaType {
    Show,
    Movie,
}

/// How files reach the destination.
#[derive(Debug, Clone, Copy, PartialEq, Eq)]
pub enum EffectiveOperationMode {
    Move,
    Copy,
    HardLink,
    SymLink,
}

impl Default for EffectiveOperationMode {
    fn default() -> (r: Self)
        ensures
            r == EffectiveOperationMode::Move,
    {
        EffectiveOperationMode::Move
    }
}

impl EffectiveOperationMode {
    /// The mode a command line asks for: `--copy`, then `--link`, then `--symlink`, and
    /// otherwise the configured default.
    pub open spec fn chosen(args: ShowMovieArgs, config: AppConfig) -> Self {
        if args.copy {
            EffectiveOperationMode::Copy
        } else if args.link {
            EffectiveOperationMode::HardLink
        } else if args.symlink {
            EffectiveOperationMode::SymLink
        } else {
            config.general.default_mode
        }
    }

    pub fn from_args_and_config(args: &ShowMovieArgs, config: &AppConfig) -> (r: Self)
        ensures
            r == Self::chosen(*args, *config),
    {
        if args.copy {
            return EffectiveOperationMode::Copy;
        }
        if args.link {
            return EffectiveOperationMode::HardLink;
        }
        if args.symlink {
            return EffectiveOperationMode::SymLink;
        }
        config.general.default_mode
    }
}

/// The mode that a configuration file names: the name, trimmed and lowercased, must be
/// one of `move`, `copy`, `hardlink`, `symlink`.
pub open spec fn mode_named(name: Seq<char>) -> Option<EffectiveOperationMode> {
    let key = lower_seq(trim_seq(name));
    if key == "move"@ {
        Some(EffectiveOperationMode::Move)
    } else if key == "copy"@ {
        Some(EffectiveOperationMode::Copy)
    } else if key == "hardlink"@ {
        Some(EffectiveOperationMode::HardLink)
    } else if key == "symlink"@ {
        Some(EffectiveOperationMode::SymLink)
    } else {
        None
    }
}

/// Reads a `default_mode` value from a configuration file. An unknown name is an error
/// whose message names the value and the accepted names.
pub fn parse_mode_name(raw: &str) -> (r: Result<EffectiveOperationMode, String>)
    ensures
        r matches Ok(m) ==> mode_named(raw@) == Some(m),
        r is Err <==> mode_named(raw@) is None,
{
    let trimmed = trim(raw);
    let key = to_ascii_lowercase(trimmed.as_str());
    let k = key.as_str();
    if str_eq(k, "move") {
        Ok(EffectiveOperationMode::Move)
    } else if str_eq(k, "copy") {
        Ok(EffectiveOperationMode::Copy)
    } else if str_eq(k, "hardlink") {
        Ok(EffectiveOperationMode::HardLink)
    } else if str_eq(k, "symlink") {
        Ok(EffectiveOperationMode::SymLink)
    } else {
        let mut msg = copy_str("invalid default_mode '");
        msg.append(k);
        msg.append("', expected one of: move, copy, hardlink, symlink");
        Err(msg)
    }
}

/// Equality of two strings, character by character.
pub fn str_eq(a: &str, b: &str) -> (r: bool)
    ensures
        r == (a@ == b@),
{
    let ca = chars_of(a);
    let cb = chars_of(b);
    if ca.len() != cb.len() {
        return false;
    }
    let mut i: usize = 0;
    while i < ca.len()
        invariant
            ca@ == a@,
            cb@ == b@,
            ca.len() == cb.len(),
            i <= ca.len(),
            forall|k: int| 0 <= k < i ==> ca@[k] == cb@[k],
        decreases ca.len() - i,
    {
        if ca[i] != cb[i] {
            return false;
        }
        i = i + 1;
    }
    assert(ca@ =~= cb@);
    true
}

// ---------------------------------------------------------------------------
// Normalisation
// ---------------------------------------------------------------------------

/// A media extension as configured: trimmed, lowercased, and with a leading `.` unless
/// it is empty or already has one.
pub open spec fn normalized_extension(value: Seq<char>) -> Seq<char> {
    let t = lower_seq(trim_seq(value));
    if t.len() > 0 && t[0] != '.' {
        seq!['.'] + t
    } else {
        t
    }
}

fn normalize_extension(value: &str) -> (r: String)
    ensures
        r@ == normalized_extension(value@),
{
    let trimmed = trim(value);
    let lowered = to_ascii_lowercase(trimmed.as_str());
    let cs = chars_of(lowered.as_str());
    if cs.len() > 0 && cs[0] != '.' {
        let mut out = String::new();
        push_char(&mut out, '.');
        out.append(lowered.as_str());
        out
    } else {
        lowered
    }
}

/// Normalizes every extension in `values`, in place.
pub fn normalize_extensions(values: &mut Vec<String>)
    ensures
        final(values).len() == old(values).len(),
        forall|i: int|
            0 <= i < old(values).len() ==> (#[trigger] final(values)@[i])@ == normalized_extension(
                old(values)@[i]@,
            ),
{
    let ghost original = values@;
    let mut i: usize = 0;
    while i < values.len()
        invariant
            values.len() == original.len(),
            i <= values.len(),
            forall|k: int| 0 <= k < i ==> (#[trigger] values@[k])@ == normalized_extension(original[k]@),
            forall|k: int| i <= k < values.len() ==> #[trigger] values@[k] == original[k],
        decreases values.len() - i,
    {
        let normalized = normalize_extension(values[i].as_str());
        values.set(i, normalized);
        i = i + 1;
    }
}

/// Trims an API key in place.
pub fn normalize_api_key(value: &mut String)
    ensures
        final(value)@ == trim_seq(old(value)@),
{
    let trimmed = trim(value.as_str());
    *value = trimmed;
}

/// A log file setting with the empty path read as "no log file".
pub open spec fn normalized_log_file(value: Option<Seq<char>>) -> Option<Seq<char>> {
    match value {
        Some(p) => if p.len() == 0 {
            None
        } else {
            Some(p)
        },
        None => None,
    }
}

/// Drops an empty log file path.
pub fn normalize_log_file(value: &mut Option<String>)
    ensures
        final(value).deep_view() == normalized_log_file(old(value).deep_view()),
{
    let empty = match value {
        Some(p) => p.as_str().is_empty(),
        None => false,
    };
    if empty {
        *value = None;
    }
}

// ---------------------------------------------------------------------------
// Configuration values
// ---------------------------------------------------------------------------

/// The effective configuration.
#[derive(Debug, Clone)]
pub struct AppConfig {
    pub general: GeneralConfig,
    pub tmdb: TmdbConfig,
    pub media_extensions: MediaExtensions,
    pub non_media: NonMediaConfig,
}

impl Default for AppConfig {
    fn default() -> (r: Self)
        ensures
            r.general.is_default(),
            r.tmdb.api_key@ == Seq::<char>::empty(),
            r.media_extensions.is_default(),
            r.non_media.mode == NonMediaMode::Keep,
    {
        AppConfig {
            general: GeneralConfig::default(),
            tmdb: TmdbConfig::default(),
            media_extensions: MediaExtensions::default(),
            non_media: NonMediaConfig::default(),
        }
    }
}

/// The normalized views of a list of extensions.
pub open spec fn normalized_views(values: Seq<String>) -> Seq<Seq<char>> {
    Seq::new(values.len(), |i: int| normalized_extension(values[i]@))
}

/// Each extension of `values` normalized.
pub open spec fn renormalized(values: Seq<Seq<char>>) -> Seq<Seq<char>> {
    Seq::new(values.len(), |i: int| normalized_extension(values[i]))
}

/// The value of a setting after the layers: the last layer that sets it wins.
pub open spec fn layered_mode(layers: Seq<PartialConfig>) -> EffectiveOperationMode
    decreases layers.len(),
{
    if layers.len() == 0 {
        EffectiveOperationMode::Move
    } else {
        match layers.last().general {
            Some(g) => match g.default_mode {
                Some(v) => v,
                None => layered_mode(layers.drop_last()),
            },
            None => layered_mode(layers.drop_last()),
        }
    }
}

pub open spec fn layered_auto_confirm(layers: Seq<PartialConfig>) -> bool
    decreases layers.len(),
{
    if layers.len() == 0 {
        false
    } else {
        match layers.last().general {
            Some(g) => match g.auto_confirm {
                Some(v) => v,
                None => layered_auto_confirm(layers.drop_last()),
            },
            None => layered_auto_confirm(layers.drop_last()),
        }
    }
}

pub open spec fn layered_clean(layers: Seq<PartialConfig>) -> bool
    decreases layers.len(),
{
    if layers.len() == 0 {
        false
    } else {
        match layers.last().general {
            Some(g) => match g.clean_empty_dirs {
                Some(v) => v,
                None => layered_clean(layers.drop_last()),
            },
            None => layered_clean(layers.drop_last()),
        }
    }
}

pub open spec fn layered_conflict(layers: Seq<PartialConfig>) -> ConflictMode
    decreases layers.len(),
{
    if layers.len() == 0 {
        ConflictMode::Skip
    } else {
        match layers.last().general {
            Some(g) => match g.conflict_mode {
                Some(v) => v,
                None => layered_conflict(layers.drop_last()),
            },
            None => layered_conflict(layers.drop_last()),
        }
    }
}

pub open spec fn layered_log_file(layers: Seq<PartialConfig>) -> Option<Seq<char>>
    decreases layers.len(),
{
    if layers.len() == 0 {
        None
    } else {
        match layers.last().general {
            Some(g) => match g.log_file {
                Some(v) => normalized_log_file(Some(v@)),
                None => layered_log_file(layers.drop_last()),
            },
            None => layered_log_file(layers.drop_last()),
        }
    }
}

pub open spec fn layered_api_key(layers: Seq<PartialConfig>) -> Seq<char>
    decreases layers.len(),
{
    if layers.len() == 0 {
        Seq::empty()
    } else {
        match layers.last().tmdb {
            Some(t) => match t.api_key {
                Some(v) => trim_seq(v@),
                None => layered_api_key(layers.drop_last()),
            },
            None => layered_api_key(layers.drop_last()),
        }
    }
}

/// The extension list `which` (0 video, 1 subtitle, 2 audio) after the layers.
pub open spec fn layered_list(layers: Seq<PartialConfig>, which: int) -> Seq<Seq<char>>
    decreases layers.len(),
{
    if layers.len() == 0 {
        if which == 0 {
            default_video()
        } else if which == 1 {
            default_subtitle()
        } else {
            default_audio()
        }
    } else {
        match layers.last().media_extensions {
            Some(m) => match (if which == 0 {
                m.video
            } else if which == 1 {
                m.subtitle
            } else {
                m.audio
            }) {
                Some(v) => normalized_views(v@),
                None => layered_list(layers.drop_last(), which),
            },
            None => layered_list(layers.drop_last(), which),
        }
    }
}

pub open spec fn layered_non_media(layers: Seq<PartialConfig>) -> NonMediaMode
    decreases layers.len(),
{
    if layers.len() == 0 {
        NonMediaMode::Keep
    } else {
        match layers.last().non_media {
            Some(n) => match n.mode {
                Some(v) => v,
                None => layered_non_media(layers.drop_last()),
            },
            None => layered_non_media(layers.drop_last()),
        }
    }
}

/// `c` is what the layers give, setting by setting.
pub open spec fn is_layered(c: AppConfig, layers: Seq<PartialConfig>) -> bool {
    &&& c.general.default_mode == layered_mode(layers)
    &&& c.general.auto_confirm == layered_auto_confirm(layers)
    &&& c.general.clean_empty_dirs == layered_clean(layers)
    &&& c.general.conflict_mode == layered_conflict(layers)
    &&& c.general.log_file.deep_view() == layered_log_file(layers)
    &&& c.tmdb.api_key@ == layered_api_key(layers)
    &&& c.media_extensions.video.deep_view() == layered_list(layers, 0)
    &&& c.media_extensions.subtitle.deep_view() == layered_list(layers, 1)
    &&& c.media_extensions.audio.deep_view() == layered_list(layers, 2)
    &&& c.non_media.mode == layered_non_media(layers)
}

/// The arguments of a `show` or `movie` command.
pub open spec fn organize_args(cli: Cli) -> Option<ShowMovieArgs> {
    match cli.command {
        Commands::Show(a) => Some(a),
        Commands::Movie(a) => Some(a),
        _ => None,
    }
}

/// `c` is the configuration for the layers, then the command line (log file, `--yes`,
/// and for `show` and `movie` also `--clean`, `--non-media` and their `--yes`), then
/// the normalizations, then the API key from the environment when none is set.
pub open spec fn is_effective(c: AppConfig, layers: Seq<PartialConfig>, cli: Cli, env_api_key: Option<Seq<char>>) -> bool {
    let args = organize_args(cli);
    let key = trim_seq(layered_api_key(layers));
    &&& c.general.default_mode == layered_mode(layers)
    &&& c.general.auto_confirm == (layered_auto_confirm(layers) || cli.yes || (args matches Some(a) && a.yes))
    &&& c.general.clean_empty_dirs == (layered_clean(layers) || (args matches Some(a) && a.clean))
    &&& c.general.conflict_mode == layered_conflict(layers)
    &&& c.general.log_file.deep_view() == normalized_log_file(
        match cli.log_file {
            Some(p) => Some(p@),
            None => layered_log_file(layers),
        },
    )
    &&& c.tmdb.api_key@ == (if key.len() == 0 && env_api_key is Some {
        trim_seq(env_api_key->0)
    } else {
        key
    })
    &&& c.media_extensions.video.deep_view() == renormalized(layered_list(layers, 0))
    &&& c.media_extensions.subtitle.deep_view() == renormalized(layered_list(layers, 1))
    &&& c.media_extensions.audio.deep_view() == renormalized(layered_list(layers, 2))
    &&& c.non_media.mode == (match args {
        Some(a) => match a.non_media {
            Some(NonMediaArg::Keep) => NonMediaMode::Keep,
            Some(NonMediaArg::Ignore) => NonMediaMode::Ignore,
            None => layered_non_media(layers),
        },
        None => layered_non_media(layers),
    })
}

impl AppConfig {
    /// Merges one configuration file: each section it has is merged into the current
    /// one.
    pub fn merge(&mut self, incoming: PartialConfig)
        ensures
            (match incoming.general {
                Some(g) => GeneralConfig::merged(old(self).general, g, final(self).general),
                None => final(self).general == old(self).general,
            }),
            final(self).tmdb.api_key@ == (match incoming.tmdb {
                Some(t) => match t.api_key {
                    Some(v) => trim_seq(v@),
                    None => old(self).tmdb.api_key@,
                },
                None => old(self).tmdb.api_key@,
            }),
            (match incoming.media_extensions {
                Some(m) => {
                    &&& replaced_list(old(self).media_extensions.video@, m.video, final(self).media_extensions.video@)
                    &&& replaced_list(old(self).media_extensions.subtitle@, m.subtitle, final(self).media_extensions.subtitle@)
                    &&& replaced_list(old(self).media_extensions.audio@, m.audio, final(self).media_extensions.audio@)
                },
                None => final(self).media_extensions == old(self).media_extensions,
            }),
            final(self).non_media.mode == (match incoming.non_media {
                Some(n) => match n.mode {
                    Some(m) => m,
                    None => old(self).non_media.mode,
                },
                None => old(self).non_media.mode,
            }),
    {
        if let Some(g) = incoming.general {
            self.general.merge(g);
        }
        if let Some(t) = incoming.tmdb {
            self.tmdb.merge(t);
        }
        if let Some(m) = incoming.media_extensions {
            self.media_extensions.merge(m);
        }
        if let Some(nm) = incoming.non_media {
            self.non_media.merge(nm);
        }
    }

    /// The configuration from the files in load order (global, local, explicit; later
    /// wins), the command line and the `TMDB_API_KEY` value of the environment.
    pub fn from_layers(layers: Vec<PartialConfig>, cli: &Cli, env_api_key: Option<String>) -> (r: AppConfig)
        ensures
            is_effective(r, layers@, *cli, env_api_key.deep_view()),
    {
        let ghost all = layers@;
        let n = layers.len();
        let mut cfg = AppConfig::default();
        let mut rest = layers;
        let mut i: usize = 0;
        proof {
            assert(all.take(0).len() == 0);
        }
        while rest.len() > 0
            invariant
                i <= all.len(),
                all.len() == n,
                rest@ == all.subrange(i as int, all.len() as int),
                is_layered(cfg, all.take(i as int)),
            decreases rest.len(),
        {
            let layer = rest.remove(0);
            let ghost pre = cfg;
            assert(layer == all[i as int]);
            cfg.merge(layer);
            proof {
                let t = all.take(i + 1);
                assert(t.drop_last() =~= all.take(i as int));
                assert(t.last() == layer);
                lemma_merged_lists(pre.media_extensions.video@, layer.media_extensions, 0, cfg.media_extensions.video@);
                lemma_merged_lists(pre.media_extensions.subtitle@, layer.media_extensions, 1, cfg.media_extensions.subtitle@);
                lemma_merged_lists(pre.media_extensions.audio@, layer.media_extensions, 2, cfg.media_extensions.audio@);
                assert(cfg.media_extensions.video.deep_view() =~= cfg.media_extensions.video@.map_values(|s: String| s@));
                assert(cfg.media_extensions.subtitle.deep_view() =~= cfg.media_extensions.subtitle@.map_values(|s: String| s@));
                assert(cfg.media_extensions.audio.deep_view() =~= cfg.media_extensions.audio@.map_values(|s: String| s@));
                assert(pre.media_extensions.video.deep_view() =~= pre.media_extensions.video@.map_values(|s: String| s@));
                assert(pre.media_extensions.subtitle.deep_view() =~= pre.media_extensions.subtitle@.map_values(|s: String| s@));
                assert(pre.media_extensions.audio.deep_view() =~= pre.media_extensions.audio@.map_values(|s: String| s@));
            }
            i = i + 1;
        }
        assert(all.take(all.len() as int) =~= all);
        if let Some(path) = &cli.log_file {
            cfg.general.log_file = Some(copy_str(path.as_str()));
        }
        if cli.yes {
            cfg.general.auto_confirm = true;
        }
        normalize_log_file(&mut cfg.general.log_file);
        match &cli.command {
            Commands::Show(args) => {
                if args.clean {
                    cfg.general.clean_empty_dirs = true;
                }
                if let Some(mode) = args.non_media {
                    cfg.non_media.mode = match mode {
                        NonMediaArg::Keep => NonMediaMode::Keep,
                        NonMediaArg::Ignore => NonMediaMode::Ignore,
                    };
                }
                if args.yes {
                    cfg.general.auto_confirm = true;
                }
            },
            Commands::Movie(args) => {
                if args.clean {
                    cfg.general.clean_empty_dirs = true;
                }
                if let Some(mode) = args.non_media {
                    cfg.non_media.mode = match mode {
                        NonMediaArg::Keep => NonMediaMode::Keep,
                        NonMediaArg::Ignore => NonMediaMode::Ignore,
                    };
                }
                if args.yes {
                    cfg.general.auto_confirm = true;
                }
            },
            _ => {},
        }
        normalize_api_key(&mut cfg.tmdb.api_key);
        let ghost lists = (cfg.media_extensions.video.deep_view(), cfg.media_extensions.subtitle.deep_view(), cfg.media_extensions.audio.deep_view());
        normalize_extensions(&mut cfg.media_extensions.video);
        normalize_extensions(&mut cfg.media_extensions.subtitle);
        normalize_extensions(&mut cfg.media_extensions.audio);
        assert(cfg.media_extensions.video.deep_view() =~= renormalized(lists.0));
        assert(cfg.media_extensions.subtitle.deep_view() =~= renormalized(lists.1));
        assert(cfg.media_extensions.audio.deep_view() =~= renormalized(lists.2));
        if cfg.tmdb.api_key.as_str().unicode_len() == 0 {
            if let Some(env_key) = env_api_key {
                let mut k = env_key;
                normalize_api_key(&mut k);
                cfg.tmdb.api_key = k;
            }
        }
        cfg
    }
}

/// One list after merging a layer, by view.
proof fn lemma_merged_lists(old: Seq<String>, incoming: Option<PartialMediaExtensions>, which: int, new: Seq<String>)
    requires
        0 <= which <= 2,
        (match incoming {
            Some(m) => replaced_list(
                old,
                if which == 0 {
                    m.video
                } else if which == 1 {
                    m.subtitle
                } else {
                    m.audio
                },
                new,
            ),
            None => new == old,
        }),
    ensures
        new.map_values(|s: String| s@) == (match incoming {
            Some(m) => match (if which == 0 {
                m.video
            } else if which == 1 {
                m.subtitle
            } else {
                m.audio
            }) {
                Some(v) => normalized_views(v@),
                None => old.map_values(|s: String| s@),
            },
            None => old.map_values(|s: String| s@),
        }),
{
    if let Some(m) = incoming {
        let l = if which == 0 {
            m.video
        } else if which == 1 {
            m.subtitle
        } else {
            m.audio
        };
        if let Some(v) = l {
            assert(new.map_values(|s: String| s@) =~= normalized_views(v@));
        }
    }
}

/// General settings.
#[derive(Debug, Clone)]
pub struct GeneralConfig {
    pub default_mode: EffectiveOperationMode,
    pub auto_confirm: bool,
    pub clean_empty_dirs: bool,
    pub conflict_mode: ConflictMode,
    pub log_file: Option<String>,
}

impl GeneralConfig {
    /// Move, no auto-confirm, no cleaning, skip conflicts, no log file.
    pub open spec fn is_default(self) -> bool {
        &&& self.default_mode == EffectiveOperationMode::Move
        &&& !self.auto_confirm
        &&& !self.clean_empty_dirs
        &&& self.conflict_mode == ConflictMode::Skip
        &&& self.log_file is None
    }

    /// `new` is `old` with every field that `incoming` sets replaced by it (an empty log
    /// file path clears the log file).
    pub open spec fn merged(old: Self, incoming: PartialGeneralConfig, new: Self) -> bool {
        &&& new.default_mode == (match incoming.default_mode {
            Some(v) => v,
            None => old.default_mode,
        })
        &&& new.auto_confirm == (match incoming.auto_confirm {
            Some(v) => v,
            None => old.auto_confirm,
        })
        &&& new.clean_empty_dirs == (match incoming.clean_empty_dirs {
            Some(v) => v,
            None => old.clean_empty_dirs,
        })
        &&& new.conflict_mode == (match incoming.conflict_mode {
            Some(v) => v,
            None => old.conflict_mode,
        })
        &&& new.log_file.deep_view() == (match incoming.log_file {
            Some(v) => normalized_log_file(Some(v@)),
            None => old.log_file.deep_view(),
        })
    }

    pub fn merge(&mut self, incoming: PartialGeneralConfig)
        ensures
            Self::merged(*old(self), incoming, *final(self)),
    {
        if let Some(v) = incoming.default_mode {
            self.default_mode = v;
        }
        if let Some(v) = incoming.auto_confirm {
            self.auto_confirm = v;
        }
        if let Some(v) = incoming.clean_empty_dirs {
            self.clean_empty_dirs = v;
        }
        if let Some(v) = incoming.conflict_mode {
            self.conflict_mode = v;
        }
        if let Some(v) = incoming.log_file {
            let mut log_file = Some(v);
            normalize_log_file(&mut log_file);
            self.log_file = log_file;
        }
    }
}

impl Default for GeneralConfig {
    fn default() -> (r: Self)
        ensures
            r.is_default(),
    {
        GeneralConfig {
            default_mode: EffectiveOperationMode::Move,
            auto_confirm: false,
            clean_empty_dirs: false,
            conflict_mode: ConflictMode::Skip,
            log_file: None,
        }
    }
}

/// What to do with destinations that already exist.
#[derive(Debug, Clone, Copy, PartialEq, Eq)]
pub enum ConflictMode {
    Skip,
    Overwrite,
    Abort,
}

/// TMDB settings.
#[derive(Debug, Clone)]
pub struct TmdbConfig {
    pub api_key: String,
}

impl Default for TmdbConfig {
    fn default() -> (r: Self)
        ensures
            r.api_key@ == Seq::<char>::empty(),
    {
        TmdbConfig { api_key: String::new() }
    }
}

impl TmdbConfig {
    pub fn merge(&mut self, incoming: PartialTmdbConfig)
        ensures
            final(self).api_key@ == (match incoming.api_key {
                Some(v) => trim_seq(v@),
                None => old(self).api_key@,
            }),
    {
        if let Some(mut v) = incoming.api_key {
            normalize_api_key(&mut v);
            self.api_key = v;
        }
    }
}

/// The extensions that classify files as video, subtitle or audio.
#[derive(Debug, Clone)]
pub struct MediaExtensions {
    pub video: Vec<String>,
    pub subtitle: Vec<String>,
    pub audio: Vec<String>,
}

/// Appends a copy of `s` to `v`.
fn push_copy(v: &mut Vec<String>, s: &str)
    ensures
        final(v).deep_view() == old(v).deep_view().push(s@),
{
    v.push(copy_str(s));
    assert(v.deep_view() =~= old(v).deep_view().push(s@));
}

impl MediaExtensions {
    /// The built-in lists of video, subtitle and audio extensions.
    pub open spec fn is_default(self) -> bool {
        &&& self.video.deep_view() == default_video()
        &&& self.subtitle.deep_view() == default_subtitle()
        &&& self.audio.deep_view() == default_audio()
    }

    /// Each list that `incoming` sets replaces the current one, normalized.
    pub fn merge(&mut self, incoming: PartialMediaExtensions)
        ensures
            replaced_list(old(self).video@, incoming.video, final(self).video@),
            replaced_list(old(self).subtitle@, incoming.subtitle, final(self).subtitle@),
            replaced_list(old(self).audio@, incoming.audio, final(self).audio@),
    {
        if let Some(mut v) = incoming.video {
            normalize_extensions(&mut v);
            self.video = v;
        }
        if let Some(mut v) = incoming.subtitle {
            normalize_extensions(&mut v);
            self.subtitle = v;
        }
        if let Some(mut v) = incoming.audio {
            normalize_extensions(&mut v);
            self.audio = v;
        }
    }
}

pub open spec fn default_video() -> Seq<Seq<char>> {
    seq![".mkv"@, ".mp4"@, ".avi"@, ".m4v"@, ".wmv"@, ".flv"@, ".webm"@, ".ts"@, ".m2ts"@]
}

pub open spec fn default_subtitle() -> Seq<Seq<char>> {
    seq![".srt"@, ".ass"@, ".ssa"@, ".sub"@, ".idx"@, ".vtt"@, ".sup"@, ".smi"@]
}

pub open spec fn default_audio() -> Seq<Seq<char>> {
    seq![".mp3"@, ".flac"@, ".aac"@, ".ac3"@, ".dts"@, ".mka"@, ".ogg"@, ".wav"@, ".wma"@, ".eac3"@, ".m4a"@]
}

/// `new` is `incoming` normalized when `incoming` is set, and `old` otherwise.
pub open spec fn replaced_list(old: Seq<String>, incoming: Option<Vec<String>>, new: Seq<String>) -> bool {
    match incoming {
        Some(v) => normalized_list(v@, new),
        None => new == old,
    }
}

/// `new` is `values` with every entry normalized.
pub open spec fn normalized_list(values: Seq<String>, new: Seq<String>) -> bool {
    &&& new.len() == values.len()
    &&& forall|i: int| 0 <= i < values.len() ==> (#[trigger] new[i])@ == normalized_extension(values[i]@)
}

impl Default for MediaExtensions {
    fn default() -> (r: Self)
        ensures
            r.is_default(),
    {
        let mut video: Vec<String> = Vec::new();
        push_copy(&mut video, ".mkv");
        push_copy(&mut video, ".mp4");
        push_copy(&mut video, ".avi");
        push_copy(&mut video, ".m4v");
        push_copy(&mut video, ".wmv");
        push_copy(&mut video, ".flv");
        push_copy(&mut video, ".webm");
        push_copy(&mut video, ".ts");
        push_copy(&mut video, ".m2ts");
        let mut subtitle: Vec<String> = Vec::new();
        push_copy(&mut subtitle, ".srt");
        push_copy(&mut subtitle, ".ass");
        push_copy(&mut subtitle, ".ssa");
        push_copy(&mut subtitle, ".sub");
        push_copy(&mut subtitle, ".idx");
        push_copy(&mut subtitle, ".vtt");
        push_copy(&mut subtitle, ".sup");
        push_copy(&mut subtitle, ".smi");
        let mut audio: Vec<String> = Vec::new();
        push_copy(&mut audio, ".mp3");
        push_copy(&mut audio, ".flac");
        push_copy(&mut audio, ".aac");
        push_copy(&mut audio, ".ac3");
        push_copy(&mut audio, ".dts");
        push_copy(&mut audio, ".mka");
        push_copy(&mut audio, ".ogg");
        push_copy(&mut audio, ".wav");
        push_copy(&mut audio, ".wma");
        push_copy(&mut audio, ".eac3");
        push_copy(&mut audio, ".m4a");
        assert(video.deep_view() =~= default_video());
        assert(subtitle.deep_view() =~= default_subtitle());
        assert(audio.deep_view() =~= default_audio());
        MediaExtensions { video, subtitle, audio }
    }
}

/// Whether files that are not video are carried along.
#[derive(Debug, Clone, Copy, PartialEq, Eq)]
pub enum NonMediaMode {
    Keep,
    Ignore,
}

impl NonMediaMode {
    pub fn to_scanner_mode(self) -> (r: NonMediaPolicy)
        ensures
            (self == NonMediaMode::Keep) == (r == NonMediaPolicy::Keep),
    {
        match self {
            NonMediaMode::Keep => NonMediaPolicy::Keep,
            NonMediaMode::Ignore => NonMediaPolicy::Ignore,
        }
    }
}

/// Settings for non-media files.
#[derive(Debug, Clone)]
pub struct NonMediaConfig {
    pub mode: NonMediaMode,
}

impl Default for NonMediaConfig {
    fn default() -> (r: Self)
        ensures
            r.mode == NonMediaMode::Keep,
    {
        NonMediaConfig { mode: NonMediaMode::Keep }
    }
}

impl NonMediaConfig {
    pub fn merge(&mut self, incoming: PartialNonMediaConfig)
        ensures
            final(self).mode == (match incoming.mode {
                Some(m) => m,
                None => old(self).mode,
            }),
    {
        if let Some(v) = incoming.mode {
            self.mode = v;
        }
    }
}

// ---------------------------------------------------------------------------
// Partial configuration, as read from one file
// ---------------------------------------------------------------------------

/// One configuration file: every section and setting may be absent.
#[derive(Debug, Clone)]
pub struct PartialConfig {
    pub general: Option<PartialGeneralConfig>,
    pub tmdb: Option<PartialTmdbConfig>,
    pub media_extensions: Option<PartialMediaExtensions>,
    pub non_media: Option<PartialNonMediaConfig>,
}

#[derive(Debug, Clone)]
pub struct PartialGeneralConfig {
    pub default_mode: Option<EffectiveOperationMode>,
    pub auto_confirm: Option<bool>,
    pub clean_empty_dirs: Option<bool>,
    pub conflict_mode: Option<ConflictMode>,
    pub log_file: Option<String>,
}

#[derive(Debug, Clone)]
pub struct PartialTmdbConfig {
    pub api_key: Option<String>,
}

#[derive(Debug, Clone)]
pub struct PartialMediaExtensions {
    pub video: Option<Vec<String>>,
    pub subtitle: Option<Vec<String>>,
    pub audio: Option<Vec<String>>,
}

#[derive(Debug, Clone)]
pub struct PartialNonMediaConfig {
    pub mode: Option<NonMediaMode>,
}

/// Whether a run carries non-video files along: `--non-media`, else the configuration.
pub open spec fn policy_for(args: ShowMovieArgs, config: AppConfig) -> NonMediaPolicy {
    let mode = match args.non_media {
        Some(NonMediaArg::Keep) => NonMediaMode::Keep,
        Some(NonMediaArg::Ignore) => NonMediaMode::Ignore,
        None => config.non_media.mode,
    };
    if mode == NonMediaMode::Keep {
        NonMediaPolicy::Keep
    } else {
        NonMediaPolicy::Ignore
    }
}

pub fn non_media_policy(args: &ShowMovieArgs, config: &AppConfig) -> (r: NonMediaPolicy)
    ensures
        r == policy_for(*args, *config),
{
    match args.non_media {
        Some(NonMediaArg::Keep) => NonMediaMode::Keep,
        Some(NonMediaArg::Ignore) => NonMediaMode::Ignore,
        None => config.non_media.mode,
    }.to_scanner_mode()
}

} // verus!
