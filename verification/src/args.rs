//! From the options on a command line to a configuration: the options that
//! are known, their defaults and types, the rule that exactly one of a
//! bounding box and a file says where the area is, and what is asked of the
//! world and of the bounding box.

use crate::bbox::{bounding_box_of, BoundingBox, BoundingBoxError, Coordinates};
use crate::duration::{duration_of, parse_duration, Seconds};
use crate::integer::{i32_of, parse_i32, IntegerError};
use crate::literal::number_of;
use crate::scale::{default_scale, Scale};
use vstd::prelude::*;
use vstd::string::StringExecFns;

verus! {

/// The entry that a directory must hold to be a world.
pub const REGION_ENTRY: &'static str = "region";

/// The ground level where none is given.
pub const DEFAULT_GROUND_LEVEL: i32 = -62;

/// The downloader where none is given.
pub open spec fn default_downloader() -> Seq<char> {
    "requests"@
}

/// The text that an option holds, if the option is there.
pub open spec fn text_of(option: Option<String>) -> Option<Seq<char>> {
    match option {
        Some(s) => Some(s@),
        None => None,
    }
}

/// The options as they stand on a command line: the value of each option
/// that takes one, as text, and for each flag whether it is there.
#[derive(Debug)]
pub struct CommandLine {
    pub bbox: Option<String>,
    pub file: Option<String>,
    pub path: Option<String>,
    pub downloader: Option<String>,
    pub scale: Option<String>,
    pub ground_level: Option<String>,
    pub winter: bool,
    pub terrain: bool,
    pub fillground: bool,
    pub debug: bool,
    pub timeout: Option<String>,
}

/// What a `CommandLine` holds.
pub struct CommandLineView {
    pub bbox: Option<Seq<char>>,
    pub file: Option<Seq<char>>,
    pub path: Option<Seq<char>>,
    pub downloader: Option<Seq<char>>,
    pub scale: Option<Seq<char>>,
    pub ground_level: Option<Seq<char>>,
    pub winter: bool,
    pub terrain: bool,
    pub fillground: bool,
    pub debug: bool,
    pub timeout: Option<Seq<char>>,
}

impl View for CommandLine {
    type V = CommandLineView;

    open spec fn view(&self) -> CommandLineView {
        CommandLineView {
            bbox: text_of(self.bbox),
            file: text_of(self.file),
            path: text_of(self.path),
            downloader: text_of(self.downloader),
            scale: text_of(self.scale),
            ground_level: text_of(self.ground_level),
            winter: self.winter,
            terrain: self.terrain,
            fillground: self.fillground,
            debug: self.debug,
            timeout: text_of(self.timeout),
        }
    }
}

impl Default for CommandLine {
    /// The command line that holds no option.
    fn default() -> (line: CommandLine)
        ensures
            line@ == (CommandLineView {
                bbox: None,
                file: None,
                path: None,
                downloader: None,
                scale: None,
                ground_level: None,
                winter: false,
                terrain: false,
                fillground: false,
                debug: false,
                timeout: None,
            }),
    {
        CommandLine {
            bbox: None,
            file: None,
            path: None,
            downloader: None,
            scale: None,
            ground_level: None,
            winter: false,
            terrain: false,
            fillground: false,
            debug: false,
            timeout: None,
        }
    }
}

/// Why a command line is refused before anything on it is looked into.
#[derive(Clone, Copy, Debug, PartialEq, Eq, Structural)]
pub enum UsageError {
    /// The scale is no number.
    InvalidScale,
    /// The ground level is no `i32`.
    InvalidGroundLevel(IntegerError),
    /// The timeout is no count of seconds.
    InvalidDuration(IntegerError),
    /// Both a bounding box and a file are given.
    ConflictingLocation,
    /// Neither a bounding box nor a file is given.
    MissingLocation,
    /// No path to the world is given.
    MissingPath,
}

/// The arguments with their defaults filled in and their values typed.
#[derive(Debug)]
pub struct Args {
    /// The bounding box of the area, as `min_lng,min_lat,max_lng,max_lat`.
    pub bbox: Option<String>,
    /// The file that holds the data of the area.
    pub file: Option<String>,
    /// The path to the world.
    pub path: String,
    /// The way to download.
    pub downloader: String,
    /// The scale of the world, in blocks per meter.
    pub scale: Scale,
    /// The ground level of the world.
    pub ground_level: i32,
    /// Whether it is winter.
    pub winter: bool,
    /// Whether the terrain is built.
    pub terrain: bool,
    /// Whether the ground is filled.
    pub fillground: bool,
    /// Whether to say more while working.
    pub debug: bool,
    /// The time that a flood fill may take.
    pub timeout: Option<Seconds>,
}

/// What an `Args` holds.
pub struct ArgsView {
    pub bbox: Option<Seq<char>>,
    pub file: Option<Seq<char>>,
    pub path: Seq<char>,
    pub downloader: Seq<char>,
    pub scale: Seq<char>,
    pub ground_level: i32,
    pub winter: bool,
    pub terrain: bool,
    pub fillground: bool,
    pub debug: bool,
    pub timeout: Option<Seconds>,
}

impl View for Args {
    type V = ArgsView;

    open spec fn view(&self) -> ArgsView {
        ArgsView {
            bbox: text_of(self.bbox),
            file: text_of(self.file),
            path: self.path@,
            downloader: self.downloader@,
            scale: self.scale@,
            ground_level: self.ground_level,
            winter: self.winter,
            terrain: self.terrain,
            fillground: self.fillground,
            debug: self.debug,
            timeout: self.timeout,
        }
    }
}

/// The scale that a command line asks for: the text given where it is a
/// number, the default where none is given.
pub open spec fn scale_of(given: Option<Seq<char>>) -> Result<Seq<char>, UsageError> {
    match given {
        None => Ok(default_scale()),
        Some(t) => if number_of(t) is Some {
            Ok(t)
        } else {
            Err(UsageError::InvalidScale)
        },
    }
}

/// The ground level that a command line asks for.
pub open spec fn ground_level_of(given: Option<Seq<char>>) -> Result<i32, UsageError> {
    match given {
        None => Ok(DEFAULT_GROUND_LEVEL),
        Some(t) => match i32_of(t) {
            Ok(n) => Ok(n),
            Err(e) => Err(UsageError::InvalidGroundLevel(e)),
        },
    }
}

/// The timeout that a command line asks for: none where none is given.
pub open spec fn timeout_of(given: Option<Seq<char>>) -> Result<Option<Seconds>, UsageError> {
    match given {
        None => Ok(None),
        Some(t) => match duration_of(t) {
            Ok(d) => Ok(Some(d)),
            Err(e) => Err(UsageError::InvalidDuration(e)),
        },
    }
}

/// What is wrong with the way a command line says where the area is and
/// where the world is, if anything.
pub open spec fn required_rejection(
    bbox: Option<Seq<char>>,
    file: Option<Seq<char>>,
    path: Option<Seq<char>>,
) -> Option<UsageError> {
    if bbox is Some && file is Some {
        Some(UsageError::ConflictingLocation)
    } else if bbox is None && file is None {
        Some(UsageError::MissingLocation)
    } else if path is None {
        Some(UsageError::MissingPath)
    } else {
        None
    }
}

/// The arguments that a command line gives, or the first thing that is
/// wrong with it: a value of the wrong type (scale, ground level, timeout,
/// in this order), then both or neither of bounding box and file, then no
/// path.
pub open spec fn typed(line: CommandLineView) -> Result<ArgsView, UsageError> {
    match scale_of(line.scale) {
        Err(e) => Err(e),
        Ok(scale) => match ground_level_of(line.ground_level) {
            Err(e) => Err(e),
            Ok(ground_level) => match timeout_of(line.timeout) {
                Err(e) => Err(e),
                Ok(timeout) => match required_rejection(line.bbox, line.file, line.path) {
                    Some(e) => Err(e),
                    None => Ok(
                        ArgsView {
                            bbox: line.bbox,
                            file: line.file,
                            path: line.path->Some_0,
                            downloader: match line.downloader {
                                Some(d) => d,
                                None => default_downloader(),
                            },
                            scale,
                            ground_level,
                            winter: line.winter,
                            terrain: line.terrain,
                            fillground: !line.fillground,
                            debug: line.debug,
                            timeout,
                        },
                    ),
                },
            },
        },
    }
}

/// Where the area to build is taken from.
#[derive(Debug)]
pub enum Location {
    /// A box on the globe.
    BoundingBox(BoundingBox),
    /// A file that holds the data.
    FilePath(String),
}

/// What a `Location` holds.
pub enum LocationView {
    BoundingBox(Coordinates),
    FilePath(Seq<char>),
}

impl View for Location {
    type V = LocationView;

    open spec fn view(&self) -> LocationView {
        match self {
            Location::BoundingBox(b) => LocationView::BoundingBox(b@),
            Location::FilePath(f) => LocationView::FilePath(f@),
        }
    }
}

/// The arguments once they are found valid: what the rest of the program
/// works with.
#[derive(Debug)]
pub struct Configuration {
    pub location: Location,
    pub world_path: String,
    pub downloader_method: String,
    pub scale: Scale,
    pub ground_level: i32,
    pub winter: bool,
    pub terrain: bool,
    pub fill_ground: bool,
    pub debug: bool,
    pub timeout: Option<Seconds>,
}

/// What a `Configuration` holds.
pub struct ConfigurationView {
    pub location: LocationView,
    pub world_path: Seq<char>,
    pub downloader_method: Seq<char>,
    pub scale: Seq<char>,
    pub ground_level: i32,
    pub winter: bool,
    pub terrain: bool,
    pub fill_ground: bool,
    pub debug: bool,
    pub timeout: Option<Seconds>,
}

impl View for Configuration {
    type V = ConfigurationView;

    open spec fn view(&self) -> ConfigurationView {
        ConfigurationView {
            location: self.location@,
            world_path: self.world_path@,
            downloader_method: self.downloader_method@,
            scale: self.scale@,
            ground_level: self.ground_level,
            winter: self.winter,
            terrain: self.terrain,
            fill_ground: self.fill_ground,
            debug: self.debug,
            timeout: self.timeout,
        }
    }
}

/// Why arguments give no configuration.
#[derive(Clone, Copy, Debug, PartialEq, Eq, Structural)]
pub enum ArgsError {
    /// The arguments do not say in exactly one way where the area is.
    Usage(UsageError),
    /// The path holds no world.
    InvalidWorldPath,
    /// The bounding box is none.
    InvalidBoundingBox(BoundingBoxError),
}

/// How a line is shown to the user.
#[derive(Clone, Copy, Debug, PartialEq, Eq, Structural)]
pub enum Emphasis {
    /// As it is.
    Plain,
    /// In red and bold.
    RedBold,
}

/// The location that arguments name, where they name exactly one.
pub open spec fn location_of(bbox: Option<Seq<char>>, file: Option<Seq<char>>) -> Result<
    LocationView,
    ArgsError,
> {
    match (bbox, file) {
        (Some(_), Some(_)) => Err(ArgsError::Usage(UsageError::ConflictingLocation)),
        (None, None) => Err(ArgsError::Usage(UsageError::MissingLocation)),
        (Some(b), None) => match bounding_box_of(b) {
            Ok(c) => Ok(LocationView::BoundingBox(c)),
            Err(e) => Err(ArgsError::InvalidBoundingBox(e)),
        },
        (None, Some(f)) => Ok(LocationView::FilePath(f)),
    }
}

/// The configuration that arguments give, `region_found` saying whether the
/// path holds a region entry; or the first rule that is broken: exactly one
/// location, then the world, then the bounding box.
pub open spec fn built(args: ArgsView, region_found: bool) -> Result<
    ConfigurationView,
    ArgsError,
> {
    if args.bbox is Some && args.file is Some {
        Err(ArgsError::Usage(UsageError::ConflictingLocation))
    } else if args.bbox is None && args.file is None {
        Err(ArgsError::Usage(UsageError::MissingLocation))
    } else if !region_found {
        Err(ArgsError::InvalidWorldPath)
    } else {
        match location_of(args.bbox, args.file) {
            Err(e) => Err(e),
            Ok(location) => Ok(
                ConfigurationView {
                    location,
                    world_path: args.path,
                    downloader_method: args.downloader,
                    scale: args.scale,
                    ground_level: args.ground_level,
                    winter: args.winter,
                    terrain: args.terrain,
                    fill_ground: args.fillground,
                    debug: args.debug,
                    timeout: args.timeout,
                },
            ),
        }
    }
}

impl UsageError {
    /// The line that tells the user what is wrong.
    pub open spec fn text(self) -> Seq<char> {
        match self {
            UsageError::InvalidScale => "error: invalid value for '--scale': not a number"@,
            UsageError::InvalidGroundLevel(_) =>
                "error: invalid value for '--ground-level': not a 32-bit integer"@,
            UsageError::InvalidDuration(_) =>
                "error: invalid value for '--timeout': not a count of seconds"@,
            UsageError::ConflictingLocation => "error: '--bbox' cannot be used with '--file'"@,
            UsageError::MissingLocation => "error: one of '--bbox' and '--file' is required"@,
            UsageError::MissingPath => "error: '--path' is required"@,
        }
    }

    /// The line that tells the user what is wrong.
    pub fn message(&self) -> (m: &'static str)
        ensures
            m@ == self.text(),
    {
        match self {
            UsageError::InvalidScale => "error: invalid value for '--scale': not a number",
            UsageError::InvalidGroundLevel(_) =>
                "error: invalid value for '--ground-level': not a 32-bit integer",
            UsageError::InvalidDuration(_) =>
                "error: invalid value for '--timeout': not a count of seconds",
            UsageError::ConflictingLocation => "error: '--bbox' cannot be used with '--file'",
            UsageError::MissingLocation => "error: one of '--bbox' and '--file' is required",
            UsageError::MissingPath => "error: '--path' is required",
        }
    }
}

impl ArgsError {
    /// The line that tells the user what is wrong.
    pub open spec fn text(self) -> Seq<char> {
        match self {
            ArgsError::Usage(e) => e.text(),
            ArgsError::InvalidWorldPath => "Error! No Minecraft world found at the given path"@,
            ArgsError::InvalidBoundingBox(_) => "Error! Invalid bbox input"@,
        }
    }

    /// The status that the process ends with: 2 for a command line that
    /// is refused as it stands, 1 for a world or a bounding box that is
    /// none.
    pub open spec fn status(self) -> u8 {
        match self {
            ArgsError::Usage(_) => 2,
            _ => 1,
        }
    }

    /// How the line is shown: in red and bold for a world or a bounding
    /// box that is none, plain for a command line that is refused as it
    /// stands.
    pub open spec fn shown(self) -> Emphasis {
        match self {
            ArgsError::Usage(_) => Emphasis::Plain,
            _ => Emphasis::RedBold,
        }
    }

    /// How the line is shown.
    pub fn emphasis(&self) -> (e: Emphasis)
        ensures
            e == self.shown(),
    {
        match self {
            ArgsError::Usage(_) => Emphasis::Plain,
            _ => Emphasis::RedBold,
        }
    }

    /// The line that tells the user what is wrong.
    pub fn message(&self) -> (m: &'static str)
        ensures
            m@ == self.text(),
    {
        match self {
            ArgsError::Usage(e) => e.message(),
            ArgsError::InvalidWorldPath => "Error! No Minecraft world found at the given path",
            ArgsError::InvalidBoundingBox(_) => "Error! Invalid bbox input",
        }
    }

    /// The status that the process ends with.
    pub fn exit_status(&self) -> (s: u8)
        ensures
            s == self.status(),
            s != 0,
    {
        match self {
            ArgsError::Usage(_) => 2,
            _ => 1,
        }
    }
}

impl ConfigurationView {
    /// The arguments that say what this configuration holds: the location
    /// as the text of its bounding box or as its file, and every other value
    /// as it is.
    pub open spec fn arguments(self) -> ArgsView {
        ArgsView {
            bbox: match self.location {
                LocationView::BoundingBox(c) => Some(c.text()),
                LocationView::FilePath(_) => None,
            },
            file: match self.location {
                LocationView::BoundingBox(_) => None,
                LocationView::FilePath(f) => Some(f),
            },
            path: self.world_path,
            downloader: self.downloader_method,
            scale: self.scale,
            ground_level: self.ground_level,
            winter: self.winter,
            terrain: self.terrain,
            fillground: self.fill_ground,
            debug: self.debug,
            timeout: self.timeout,
        }
    }
}

impl Args {
    /// Fills in the defaults and types the values of a command line.
    pub fn from_command_line(line: CommandLine) -> (r: Result<Args, UsageError>)
        ensures
            match r {
                Ok(args) => typed(line@) == Ok::<ArgsView, UsageError>(args@),
                Err(e) => typed(line@) == Err::<ArgsView, UsageError>(e),
            },
    {
        let scale = match line.scale {
            None => Scale::one(),
            Some(t) => match Scale::parse(t.as_str()) {
                Some(scale) => scale,
                None => {
                    return Err(UsageError::InvalidScale);
                },
            },
        };
        let ground_level = match line.ground_level {
            None => DEFAULT_GROUND_LEVEL,
            Some(t) => match parse_i32(t.as_str()) {
                Ok(n) => n,
                Err(e) => {
                    return Err(UsageError::InvalidGroundLevel(e));
                },
            },
        };
        let timeout = match line.timeout {
            None => None,
            Some(t) => match parse_duration(t.as_str()) {
                Ok(d) => Some(d),
                Err(e) => {
                    return Err(UsageError::InvalidDuration(e));
                },
            },
        };
        if line.bbox.is_some() && line.file.is_some() {
            return Err(UsageError::ConflictingLocation);
        }
        if line.bbox.is_none() && line.file.is_none() {
            return Err(UsageError::MissingLocation);
        }
        let path = match line.path {
            None => {
                return Err(UsageError::MissingPath);
            },
            Some(p) => p,
        };
        let downloader = match line.downloader {
            None => String::from_str("requests"),
            Some(d) => d,
        };
        Ok(
            Args {
                bbox: line.bbox,
                file: line.file,
                path,
                downloader,
                scale,
                ground_level,
                winter: line.winter,
                terrain: line.terrain,
                fillground: !line.fillground,
                debug: line.debug,
                timeout,
            },
        )
    }

    /// Validates the arguments and gives the configuration. `region_found`
    /// says whether the path holds an entry named `region`. The rules are
    /// applied in this order: exactly one location, the world, the bounding
    /// box.
    pub fn run(&self, region_found: bool) -> (r: Result<Configuration, ArgsError>)
        ensures
            match r {
                Ok(c) => built(self@, region_found) == Ok::<ConfigurationView, ArgsError>(c@),
                Err(e) => built(self@, region_found) == Err::<ConfigurationView, ArgsError>(e),
            },
    {
        if self.bbox.is_some() && self.file.is_some() {
            return Err(ArgsError::Usage(UsageError::ConflictingLocation));
        }
        if self.bbox.is_none() && self.file.is_none() {
            return Err(ArgsError::Usage(UsageError::MissingLocation));
        }
        if !region_found {
            return Err(ArgsError::InvalidWorldPath);
        }
        let location = match &self.bbox {
            Some(b) => match BoundingBox::parse(b.as_str()) {
                Ok(bounding_box) => Location::BoundingBox(bounding_box),
                Err(e) => {
                    return Err(ArgsError::InvalidBoundingBox(e));
                },
            },
            None => match &self.file {
                Some(f) => Location::FilePath(f.clone()),
                None => {
                    return Err(ArgsError::Usage(UsageError::MissingLocation));
                },
            },
        };
        Ok(
            Configuration {
                location,
                world_path: self.path.clone(),
                downloader_method: self.downloader.clone(),
                scale: self.scale.clone(),
                ground_level: self.ground_level,
                winter: self.winter,
                terrain: self.terrain,
                fill_ground: self.fillground,
                debug: self.debug,
                timeout: self.timeout,
            },
        )
    }
}

} // verus!
