//! Configuration values: which converter is active, how each converter is
//! set up, and how the slideshow behaves.
use vstd::prelude::*;

use vstd::string::StringExecFns;

use crate::strings::{chars_of, push_chars};

verus! {

/// Settings of the chafa converter.
#[derive(Debug, PartialEq)]
pub struct ChafaConfig {
    pub format: String,
    pub colors: String,
}

impl Clone for ChafaConfig {
    fn clone(&self) -> (r: Self)
        ensures
            r == *self,
    {
        ChafaConfig { format: self.format.clone(), colors: self.colors.clone() }
    }
}

impl Default for ChafaConfig {
    fn default() -> (r: Self)
        ensures
            r.format@ == "ansi"@,
            r.colors@ == "full"@,
    {
        ChafaConfig { format: "ansi".to_owned(), colors: "full".to_owned() }
    }
}

/// Settings of the jp2a converter.  `dither` is kept for compatibility; jp2a
/// has no such option.
#[derive(Debug)]
pub struct Jp2aConfig {
    pub colors: bool,
    pub invert: bool,
    pub dither: String,
    pub chars: Option<String>,
}

impl Clone for Jp2aConfig {
    fn clone(&self) -> (r: Self)
        ensures
            r == *self,
    {
        let chars = match &self.chars {
            Some(c) => Some(c.clone()),
            None => None,
        };
        Jp2aConfig { colors: self.colors, invert: self.invert, dither: self.dither.clone(), chars }
    }
}

impl Default for Jp2aConfig {
    fn default() -> (r: Self)
        ensures
            r.colors,
            !r.invert,
            r.dither@ == "none"@,
            r.chars is None,
    {
        Jp2aConfig { colors: true, invert: false, dither: "none".to_owned(), chars: None }
    }
}

/// The largest pixel dimension sent to the terminal when none is configured.
pub const DEFAULT_MAX_DIMENSION: u32 = 384;

/// Settings of the graphical converter.
#[derive(Debug)]
pub struct GraphicalConfig {
    pub filter_type: String,
    pub max_dimension: u32,
    /// Derive the pixel budget from the terminal size instead of
    /// `max_dimension`.
    pub auto_resize: bool,
}

impl Clone for GraphicalConfig {
    fn clone(&self) -> (r: Self)
        ensures
            r == *self,
    {
        GraphicalConfig {
            filter_type: self.filter_type.clone(),
            max_dimension: self.max_dimension,
            auto_resize: self.auto_resize,
        }
    }
}

impl Default for GraphicalConfig {
    fn default() -> (r: Self)
        ensures
            r.filter_type@ == "lanczos3"@,
            r.max_dimension == DEFAULT_MAX_DIMENSION,
            r.auto_resize,
    {
        GraphicalConfig {
            filter_type: "lanczos3".to_owned(),
            max_dimension: DEFAULT_MAX_DIMENSION,
            auto_resize: true,
        }
    }
}

/// The three converters' settings and the name of the selected one:
/// `"chafa"`, `"jp2a"` or `"graphical"`.
#[derive(Debug)]
pub struct ConverterConfig {
    pub chafa: ChafaConfig,
    pub jp2a: Jp2aConfig,
    pub graphical: GraphicalConfig,
    pub selected: String,
}

impl Clone for ConverterConfig {
    fn clone(&self) -> (r: Self)
        ensures
            r == *self,
    {
        ConverterConfig {
            chafa: self.chafa.clone(),
            jp2a: self.jp2a.clone(),
            graphical: self.graphical.clone(),
            selected: self.selected.clone(),
        }
    }
}

impl Default for ConverterConfig {
    fn default() -> (r: Self)
        ensures
            r.chafa.format@ == "ansi"@,
            r.chafa.colors@ == "full"@,
            r.jp2a.colors,
            !r.jp2a.invert,
            r.jp2a.dither@ == "none"@,
            r.jp2a.chars is None,
            r.graphical.filter_type@ == "lanczos3"@,
            r.graphical.max_dimension == DEFAULT_MAX_DIMENSION,
            r.graphical.auto_resize,
            r.selected@ == "chafa"@,
    {
        ConverterConfig {
            chafa: ChafaConfig::default(),
            jp2a: Jp2aConfig::default(),
            graphical: GraphicalConfig::default(),
            selected: "chafa".to_owned(),
        }
    }
}

/// How slideshow transitions are animated.  `effect` is one of
/// `"scattering"`, `"typewriter"`, `"scrolling_left"`, `"scrolling_right"`
/// and `"climbing"`; any other name leaves the text as it is.
#[derive(Debug)]
pub struct SlideshowTransitionConfig {
    pub enabled: bool,
    pub effect: String,
    pub frame_duration_ms: u64,
}

impl Clone for SlideshowTransitionConfig {
    fn clone(&self) -> (r: Self)
        ensures
            r == *self,
    {
        SlideshowTransitionConfig {
            enabled: self.enabled,
            effect: self.effect.clone(),
            frame_duration_ms: self.frame_duration_ms,
        }
    }
}

impl Default for SlideshowTransitionConfig {
    fn default() -> (r: Self)
        ensures
            !r.enabled,
            r.effect@ == "scattering"@,
            r.frame_duration_ms == 50,
    {
        SlideshowTransitionConfig {
            enabled: false,
            effect: "scattering".to_owned(),
            frame_duration_ms: 50,
        }
    }
}

/// The delay between slideshow images when none is configured.
pub const DEFAULT_SLIDESHOW_DELAY_MS: u64 = 2000;

/// The whole configuration.  `chafa` is where older configuration files kept
/// the chafa settings; see [`PTuiConfig::migrate_legacy_chafa`].
#[derive(Debug)]
pub struct PTuiConfig {
    pub converter: ConverterConfig,
    pub locale: Option<String>,
    pub slideshow_delay_ms: Option<u64>,
    pub slideshow_transitions: Option<SlideshowTransitionConfig>,
    pub chafa: Option<ChafaConfig>,
}

impl Clone for PTuiConfig {
    fn clone(&self) -> (r: Self)
        ensures
            r == *self,
    {
        let locale = match &self.locale {
            Some(l) => Some(l.clone()),
            None => None,
        };
        let slideshow_transitions = match &self.slideshow_transitions {
            Some(t) => Some(t.clone()),
            None => None,
        };
        let chafa = match &self.chafa {
            Some(c) => Some(c.clone()),
            None => None,
        };
        PTuiConfig {
            converter: self.converter.clone(),
            locale,
            slideshow_delay_ms: self.slideshow_delay_ms,
            slideshow_transitions,
            chafa,
        }
    }
}

impl Default for PTuiConfig {
    fn default() -> (r: Self)
        ensures
            r.converter.selected@ == "chafa"@,
            r.converter.chafa.format@ == "ansi"@,
            r.converter.chafa.colors@ == "full"@,
            r.converter.jp2a.colors,
            !r.converter.jp2a.invert,
            r.converter.jp2a.dither@ == "none"@,
            r.converter.jp2a.chars is None,
            r.converter.graphical.filter_type@ == "lanczos3"@,
            r.converter.graphical.max_dimension == DEFAULT_MAX_DIMENSION,
            r.converter.graphical.auto_resize,
            r.locale is Some && r.locale->0@ == "en"@,
            r.slideshow_delay_ms == Some(DEFAULT_SLIDESHOW_DELAY_MS),
            r.slideshow_transitions is Some,
            !r.slideshow_transitions->0.enabled,
            r.slideshow_transitions->0.effect@ == "scattering"@,
            r.slideshow_transitions->0.frame_duration_ms == 50,
            r.chafa is None,
    {
        PTuiConfig {
            converter: ConverterConfig::default(),
            locale: Some("en".to_owned()),
            slideshow_delay_ms: Some(DEFAULT_SLIDESHOW_DELAY_MS),
            slideshow_transitions: Some(SlideshowTransitionConfig::default()),
            chafa: None,
        }
    }
}

/// The path of the configuration file below the configuration directory
/// `dir`: `dir`, a `/` unless `dir` is empty or ends in one, then
/// `ptui/ptui.json`.
pub open spec fn config_path_below(dir: Seq<char>) -> Seq<char> {
    let sep = if dir.len() == 0 || dir.last() == '/' {
        Seq::<char>::empty()
    } else {
        seq!['/']
    };
    dir + sep + "ptui/ptui.json"@
}

/// The user's configuration directory, as the platform reports it.
///
/// Wraps `dirs::config_dir`, whose answer depends on the environment, so
/// nothing is promised of it.  A path that is not valid Unicode is converted
/// with replacement characters.
#[verifier::external_body]
fn platform_config_dir() -> (r: Option<String>) {
    dirs::config_dir().map(|p| p.to_string_lossy().into_owned())
}

impl PTuiConfig {
    /// The configured locale, `"en"` when none is set.
    pub fn get_locale(&self) -> (r: String)
        ensures
            r@ == match self.locale {
                Some(l) => l@,
                None => "en"@,
            },
    {
        match &self.locale {
            Some(l) => l.clone(),
            None => "en".to_owned(),
        }
    }

    /// The configured slideshow delay, two seconds when none is set.
    pub fn get_slideshow_delay_ms(&self) -> (r: u64)
        ensures
            r == match self.slideshow_delay_ms {
                Some(ms) => ms,
                None => DEFAULT_SLIDESHOW_DELAY_MS,
            },
    {
        match self.slideshow_delay_ms {
            Some(ms) => ms,
            None => DEFAULT_SLIDESHOW_DELAY_MS,
        }
    }

    /// The configured transition settings; when none are set, transitions
    /// are off, with the scattering effect at 50 ms per frame.
    pub fn get_slideshow_transitions(&self) -> (r: SlideshowTransitionConfig)
        ensures
            match self.slideshow_transitions {
                Some(t) => r == t,
                None => !r.enabled && r.effect@ == "scattering"@ && r.frame_duration_ms == 50,
            },
    {
        match &self.slideshow_transitions {
            Some(t) => t.clone(),
            None => SlideshowTransitionConfig::default(),
        }
    }

    /// The configuration file's path below the directory `dir`.
    pub fn config_path_in(dir: &str) -> (r: String)
        ensures
            r@ == config_path_below(dir@),
    {
        let chars = chars_of(dir);
        let mut path = String::new();
        push_chars(&mut path, &chars, 0, chars.len());
        assert(chars@.subrange(0, chars@.len() as int) =~= chars@);
        if chars.len() > 0 && chars[chars.len() - 1] != '/' {
            path.append("/");
            proof {
                reveal_strlit("/");
                assert("/"@ =~= seq!['/']);
            }
        }
        path.append("ptui/ptui.json");
        assert(path@ =~= config_path_below(dir@));
        path
    }

    /// The configuration file's path below the user's configuration
    /// directory, or an error when the platform knows no such directory.
    pub fn get_config_path() -> (r: Result<String, String>)
        ensures
            match r {
                Ok(path) => exists|dir: Seq<char>| path@ == config_path_below(dir),
                Err(e) => e@ == "Could not determine config directory"@,
            },
    {
        match platform_config_dir() {
            Some(dir) => Ok(Self::config_path_in(dir.as_str())),
            None => Err("Could not determine config directory".to_owned()),
        }
    }

    /// Moves chafa settings found in the old place to `converter.chafa`.
    /// Returns whether there was anything to move.
    pub fn migrate_legacy_chafa(&mut self) -> (migrated: bool)
        ensures
            migrated == old(self).chafa is Some,
            final(self).chafa is None,
            final(self).converter.chafa == match old(self).chafa {
                Some(c) => c,
                None => old(self).converter.chafa,
            },
            final(self).converter.jp2a == old(self).converter.jp2a,
            final(self).converter.graphical == old(self).converter.graphical,
            final(self).converter.selected == old(self).converter.selected,
            final(self).locale == old(self).locale,
            final(self).slideshow_delay_ms == old(self).slideshow_delay_ms,
            final(self).slideshow_transitions == old(self).slideshow_transitions,
    {
        let legacy = self.chafa.take();
        match legacy {
            Some(c) => {
                self.converter.chafa = c;
                true
            },
            None => false,
        }
    }
}

} // verus!
