//! Resource management: what the library keeps of the sounds and images that the caller has
//! loaded.

use vstd::prelude::*;
use crate::obj::UNIT;
use crate::text::{chars_of, lower};

verus! {

/// The width of BGA, or the width of screen for the exclusive mode.
pub const BGAW: u32 = 256;

/// The height of BGA, or the height of screen for the exclusive mode.
pub const BGAH: u32 = 256;

/// An internal sampling rate of the mixer. Every chunk loaded is first converted to
/// this sampling rate for the purpose of mixing.
pub const SAMPLERATE: i32 = 44100;

/// The number of bytes in the chunk converted to an internal sampling rate: stereo, 16 bits
/// per sample.
pub const BYTESPERSEC: i32 = 176400;

/// A sound chunk that the caller has loaded, by the number that the caller gave it.
#[derive(Clone, Copy, Debug, PartialEq, Eq, Structural)]
pub struct Chunk {
    /// The number of the chunk.
    pub id: u32,
    /// The length of the chunk in bytes, at the internal sampling rate.
    pub alen: u32,
}

/// A surface that the caller has prepared, by the number that the caller gave it.
#[derive(Clone, Copy, Debug, PartialEq, Eq, Structural)]
pub struct PreparedSurface(pub u32);

/// A movie that the caller has opened, by the number that the caller gave it.
#[derive(Clone, Copy, Debug, PartialEq, Eq, Structural)]
pub struct Movie(pub u32);

/// Something for the caller to do with a movie.
#[derive(Clone, Copy, Debug, PartialEq, Eq)]
pub enum MovieCommand {
    /// Stop the playback.
    Stop(Movie),
    /// Go back to the beginning.
    Rewind(Movie),
    /// Start the playback.
    Play(Movie),
}

/// Sound resource associated to `SoundRef`. It contains the chunk that can be readily played.
#[derive(Clone, Copy, Debug, PartialEq, Eq)]
pub enum SoundResource {
    /// No sound resource is associated, or error occurred while loading.
    NoSound,
    /// Sound resource is associated.
    Sound(Chunk),
}

impl SoundResource {
    /// The length of the sound in seconds, rounded down.
    pub open spec fn duration_spec(self) -> int {
        match self {
            SoundResource::NoSound => 0,
            SoundResource::Sound(chunk) => chunk.alen * UNIT / (BYTESPERSEC as int),
        }
    }

    /// Returns the associated chunk if any.
    pub fn chunk(&self) -> (c: Option<Chunk>)
        ensures
            c == match *self {
                SoundResource::NoSound => None,
                SoundResource::Sound(chunk) => Some(chunk),
            },
    {
        match *self {
            SoundResource::NoSound => None,
            SoundResource::Sound(chunk) => Some(chunk),
        }
    }

    /// Returns the length of associated sound chunk in seconds. This is used for determining
    /// the actual duration of the song in presence of key and background sounds, so it
    /// returns 0 if no sound is present.
    pub fn duration(&self) -> (d: i64)
        ensures
            d == self.duration_spec(),
    {
        match *self {
            SoundResource::NoSound => 0,
            SoundResource::Sound(chunk) => {
                let d: i128 = (chunk.alen as i128) * (UNIT as i128) / (BYTESPERSEC as i128);
                d as i64
            },
        }
    }
}

/// Same as `SoundResource`, as it comes from the one who loads it.
#[derive(Clone, Copy, Debug, PartialEq, Eq)]
pub enum LoadedSoundResource {
    NoLoadedSound,
    LoadedSound(Chunk),
}

impl LoadedSoundResource {
    /// The sound resource that it becomes.
    pub open spec fn wrap_spec(self) -> SoundResource {
        match self {
            LoadedSoundResource::NoLoadedSound => SoundResource::NoSound,
            LoadedSoundResource::LoadedSound(chunk) => SoundResource::Sound(chunk),
        }
    }

    /// Creates a `SoundResource` instance. There is no turning back.
    pub fn wrap(self) -> (r: SoundResource)
        ensures
            r == self.wrap_spec(),
    {
        match self {
            LoadedSoundResource::NoLoadedSound => SoundResource::NoSound,
            LoadedSoundResource::LoadedSound(chunk) => SoundResource::Sound(chunk),
        }
    }
}

/// Image resource associated to `ImageRef`. It can be either a static image or a movie, and
/// both contains a surface that can be blitted to the screen.
#[derive(Clone, Copy, Debug, PartialEq, Eq)]
pub enum ImageResource {
    /// No image resource is associated, or error occurred while loading.
    NoImage,
    /// A static image is associated.
    Image(PreparedSurface),
    /// A movie is associated. A playback starts when `start_animating` is called, and stops
    /// when `stop_animating` is called.
    Movie(PreparedSurface, Movie),
}

impl ImageResource {
    /// Returns an associated surface if any.
    pub fn surface(&self) -> (s: Option<PreparedSurface>)
        ensures
            s == match *self {
                ImageResource::NoImage => None,
                ImageResource::Image(surface) => Some(surface),
                ImageResource::Movie(surface, _) => Some(surface),
            },
    {
        match *self {
            ImageResource::NoImage => None,
            ImageResource::Image(surface) | ImageResource::Movie(surface, _) => Some(surface),
        }
    }

    /// Stops the animation/movie playback if possible: returns what the caller has to do
    /// for it, in order.
    pub fn stop_animating(&self) -> (commands: Vec<MovieCommand>)
        ensures
            commands@ == match *self {
                ImageResource::Movie(_, mpeg) => seq![MovieCommand::Stop(mpeg)],
                _ => Seq::<MovieCommand>::empty(),
            },
    {
        let mut commands: Vec<MovieCommand> = Vec::new();
        match *self {
            ImageResource::NoImage | ImageResource::Image(_) => {},
            ImageResource::Movie(_, mpeg) => {
                commands.push(MovieCommand::Stop(mpeg));
            },
        }
        assert(commands@ =~= match *self {
            ImageResource::Movie(_, mpeg) => seq![MovieCommand::Stop(mpeg)],
            _ => Seq::<MovieCommand>::empty(),
        });
        commands
    }

    /// Starts (or restarts, if the movie was already being played) the animation/movie
    /// playback if possible: returns what the caller has to do for it, in order.
    pub fn start_animating(&self) -> (commands: Vec<MovieCommand>)
        ensures
            commands@ == match *self {
                ImageResource::Movie(_, mpeg) => seq![
                    MovieCommand::Rewind(mpeg),
                    MovieCommand::Play(mpeg),
                ],
                _ => Seq::<MovieCommand>::empty(),
            },
    {
        let mut commands: Vec<MovieCommand> = Vec::new();
        match *self {
            ImageResource::NoImage | ImageResource::Image(_) => {},
            ImageResource::Movie(_, mpeg) => {
                commands.push(MovieCommand::Rewind(mpeg));
                commands.push(MovieCommand::Play(mpeg));
            },
        }
        assert(commands@ =~= match *self {
            ImageResource::Movie(_, mpeg) => seq![MovieCommand::Rewind(mpeg), MovieCommand::Play(mpeg)],
            _ => Seq::<MovieCommand>::empty(),
        });
        commands
    }
}

/// Same as `ImageResource`, as it comes from the one who loads it.
#[derive(Clone, Copy, Debug, PartialEq, Eq)]
pub enum LoadedImageResource {
    NoLoadedImage,
    LoadedImage(PreparedSurface),
    LoadedMovie(PreparedSurface, Movie),
}

impl LoadedImageResource {
    /// The image resource that it becomes.
    pub open spec fn wrap_spec(self) -> ImageResource {
        match self {
            LoadedImageResource::NoLoadedImage => ImageResource::NoImage,
            LoadedImageResource::LoadedImage(surface) => ImageResource::Image(surface),
            LoadedImageResource::LoadedMovie(surface, mpeg) => ImageResource::Movie(surface, mpeg),
        }
    }

    /// Creates an `ImageResource` instance. Again, there is no turning back.
    pub fn wrap(self) -> (r: ImageResource)
        ensures
            r == self.wrap_spec(),
    {
        match self {
            LoadedImageResource::NoLoadedImage => ImageResource::NoImage,
            LoadedImageResource::LoadedImage(surface) => ImageResource::Image(surface),
            LoadedImageResource::LoadedMovie(surface, mpeg) => ImageResource::Movie(surface, mpeg),
        }
    }
}

/// True if the text ends with `.mpg`, in either case.
pub open spec fn names_movie(path: Seq<char>) -> bool {
    path.len() >= 4 && path[path.len() - 4] == '.' && lower(path[path.len() - 3]) == 'm' as u32
        && lower(path[path.len() - 2]) == 'p' as u32 && lower(path[path.len() - 1]) == 'g' as u32
}

/// Tells whether the path names a movie file, whose extension is kept as it is when the file
/// is searched for. For any other image file the alternative extensions of images are tried.
pub fn is_movie_path(path: &str) -> (r: bool)
    ensures
        r == names_movie(path@),
{
    let chars = chars_of(path);
    let n: usize = chars.len();
    if n < 4 {
        return false;
    }
    chars[n - 4] == '.' && crate::text::lower_char(chars[n - 3]) == 'm' as u32
        && crate::text::lower_char(chars[n - 2]) == 'p' as u32 && crate::text::lower_char(
        chars[n - 1],
    ) == 'g' as u32
}

} // verus!
