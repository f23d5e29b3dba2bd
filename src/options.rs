//! Per-download options: format, container, embedding and subtitle flags.
use vstd::prelude::*;

verus! {

/// Which format the downloader selects.
#[derive(Clone, Debug)]
pub enum OutputFormat {
    Default,
    Best,
    Worst,
    BestVideo,
    BestAudio,
    Custom(String),
}

/// The value of the `-f` flag for a format; none for the tool's default.
pub open spec fn format_arg(f: OutputFormat) -> Option<Seq<char>> {
    match f {
        OutputFormat::Default => None,
        OutputFormat::Best => Some("best"@),
        OutputFormat::Worst => Some("worst"@),
        OutputFormat::BestVideo => Some("bestvideo"@),
        OutputFormat::BestAudio => Some("bestaudio"@),
        OutputFormat::Custom(s) => Some(s@),
    }
}

pub open spec fn opt_string_view(o: Option<String>) -> Option<Seq<char>> {
    match o {
        Some(s) => Some(s@),
        None => None,
    }
}

impl OutputFormat {
    pub fn as_arg(&self) -> (r: Option<String>)
        ensures
            opt_string_view(r) == format_arg(*self),
    {
        match self {
            OutputFormat::Default => None,
            OutputFormat::Best => Some("best".to_owned()),
            OutputFormat::Worst => Some("worst".to_owned()),
            OutputFormat::BestVideo => Some("bestvideo".to_owned()),
            OutputFormat::BestAudio => Some("bestaudio".to_owned()),
            OutputFormat::Custom(s) => Some(s.clone()),
        }
    }
}

/// The container that merged output is written in.
#[derive(Clone, Debug)]
pub enum Container {
    Default,
    Mp4,
    Mkv,
    Webm,
    Mp3,
    M4a,
    Opus,
    Flac,
    Custom(String),
}

/// The value of `--merge-output-format` for a container; none for the
/// tool's default.
pub open spec fn container_arg(c: Container) -> Option<Seq<char>> {
    match c {
        Container::Default => None,
        Container::Mp4 => Some("mp4"@),
        Container::Mkv => Some("mkv"@),
        Container::Webm => Some("webm"@),
        Container::Mp3 => Some("mp3"@),
        Container::M4a => Some("m4a"@),
        Container::Opus => Some("opus"@),
        Container::Flac => Some("flac"@),
        Container::Custom(s) => Some(s@),
    }
}

pub open spec fn opt_str_view(o: Option<&str>) -> Option<Seq<char>> {
    match o {
        Some(s) => Some(s@),
        None => None,
    }
}

impl Container {
    pub fn as_str(&self) -> (r: Option<&str>)
        ensures
            opt_str_view(r) == container_arg(*self),
    {
        match self {
            Container::Default => None,
            Container::Mp4 => Some("mp4"),
            Container::Mkv => Some("mkv"),
            Container::Webm => Some("webm"),
            Container::Mp3 => Some("mp3"),
            Container::M4a => Some("m4a"),
            Container::Opus => Some("opus"),
            Container::Flac => Some("flac"),
            Container::Custom(s) => Some(s.as_str()),
        }
    }
}

/// What one download asks of the tool beyond the URL and output path.
#[derive(Clone, Debug)]
pub struct DownloadOptions {
    pub format: OutputFormat,
    pub container: Container,
    pub output_template: Option<String>,
    pub embed_thumbnail: bool,
    pub embed_metadata: bool,
    pub embed_subtitles: bool,
    pub extract_audio: bool,
    pub audio_format: Option<String>,
    pub audio_quality: Option<String>,
    pub subtitles_langs: Vec<String>,
    pub write_subtitles: bool,
    pub write_thumbnail: bool,
    pub cookies_file: Option<String>,
    pub rate_limit: Option<String>,
    pub concurrent_fragments: Option<u32>,
    pub extra_args: Vec<String>,
}

impl DownloadOptions {
    /// The options that ask for nothing beyond the tool's defaults.
    pub open spec fn is_default(&self) -> bool {
        &&& self.format is Default
        &&& self.container is Default
        &&& self.output_template is None
        &&& !self.embed_thumbnail
        &&& !self.embed_metadata
        &&& !self.embed_subtitles
        &&& !self.extract_audio
        &&& self.audio_format is None
        &&& self.audio_quality is None
        &&& self.subtitles_langs@.len() == 0
        &&& !self.write_subtitles
        &&& !self.write_thumbnail
        &&& self.cookies_file is None
        &&& self.rate_limit is None
        &&& self.concurrent_fragments is None
        &&& self.extra_args@.len() == 0
    }

    pub fn new() -> (r: Self)
        ensures
            r.is_default(),
    {
        DownloadOptions {
            format: OutputFormat::Default,
            container: Container::Default,
            output_template: None,
            embed_thumbnail: false,
            embed_metadata: false,
            embed_subtitles: false,
            extract_audio: false,
            audio_format: None,
            audio_quality: None,
            subtitles_langs: Vec::new(),
            write_subtitles: false,
            write_thumbnail: false,
            cookies_file: None,
            rate_limit: None,
            concurrent_fragments: None,
            extra_args: Vec::new(),
        }
    }

    pub fn format(self, format: OutputFormat) -> (r: Self)
        ensures
            r == (Self { format, ..self }),
    {
        Self { format, ..self }
    }

    pub fn container(self, container: Container) -> (r: Self)
        ensures
            r == (Self { container, ..self }),
    {
        Self { container, ..self }
    }

    pub fn output_template(self, template: &str) -> (r: Self)
        ensures
            r.output_template matches Some(t) && t@ == template@,
            r == (Self { output_template: r.output_template, ..self }),
    {
        Self { output_template: Some(template.to_owned()), ..self }
    }

    pub fn embed_thumbnail(self, embed: bool) -> (r: Self)
        ensures
            r == (Self { embed_thumbnail: embed, ..self }),
    {
        Self { embed_thumbnail: embed, ..self }
    }

    pub fn embed_metadata(self, embed: bool) -> (r: Self)
        ensures
            r == (Self { embed_metadata: embed, ..self }),
    {
        Self { embed_metadata: embed, ..self }
    }

    pub fn embed_subtitles(self, embed: bool) -> (r: Self)
        ensures
            r == (Self { embed_subtitles: embed, ..self }),
    {
        Self { embed_subtitles: embed, ..self }
    }

    pub fn extract_audio(self, extract: bool) -> (r: Self)
        ensures
            r == (Self { extract_audio: extract, ..self }),
    {
        Self { extract_audio: extract, ..self }
    }

    pub fn audio_format(self, format: &str) -> (r: Self)
        ensures
            r.audio_format matches Some(f) && f@ == format@,
            r == (Self { audio_format: r.audio_format, ..self }),
    {
        Self { audio_format: Some(format.to_owned()), ..self }
    }

    pub fn audio_quality(self, quality: &str) -> (r: Self)
        ensures
            r.audio_quality matches Some(q) && q@ == quality@,
            r == (Self { audio_quality: r.audio_quality, ..self }),
    {
        Self { audio_quality: Some(quality.to_owned()), ..self }
    }

    pub fn subtitles_langs(self, langs: Vec<String>) -> (r: Self)
        ensures
            r == (Self { subtitles_langs: langs, ..self }),
    {
        Self { subtitles_langs: langs, ..self }
    }

    pub fn write_subtitles(self, write: bool) -> (r: Self)
        ensures
            r == (Self { write_subtitles: write, ..self }),
    {
        Self { write_subtitles: write, ..self }
    }

    pub fn write_thumbnail(self, write: bool) -> (r: Self)
        ensures
            r == (Self { write_thumbnail: write, ..self }),
    {
        Self { write_thumbnail: write, ..self }
    }

    pub fn cookies_file(self, path: &str) -> (r: Self)
        ensures
            r.cookies_file matches Some(p) && p@ == path@,
            r == (Self { cookies_file: r.cookies_file, ..self }),
    {
        Self { cookies_file: Some(path.to_owned()), ..self }
    }

    pub fn rate_limit(self, limit: &str) -> (r: Self)
        ensures
            r.rate_limit matches Some(l) && l@ == limit@,
            r == (Self { rate_limit: r.rate_limit, ..self }),
    {
        Self { rate_limit: Some(limit.to_owned()), ..self }
    }

    pub fn concurrent_fragments(self, count: u32) -> (r: Self)
        ensures
            r == (Self { concurrent_fragments: Some(count), ..self }),
    {
        Self { concurrent_fragments: Some(count), ..self }
    }

    pub fn extra_arg(self, arg: &str) -> (r: Self)
        ensures
            r.extra_args@.len() == self.extra_args@.len() + 1,
            r.extra_args@.drop_last() == self.extra_args@,
            r.extra_args@.last()@ == arg@,
            r == (Self { extra_args: r.extra_args, ..self }),
    {
        let mut s = self;
        s.extra_args.push(arg.to_owned());
        s
    }

    pub fn extra_args(self, args: Vec<String>) -> (r: Self)
        ensures
            r.extra_args@ == self.extra_args@ + args@,
            r == (Self { extra_args: r.extra_args, ..self }),
    {
        let mut s = self;
        let mut args = args;
        s.extra_args.append(&mut args);
        s
    }
}

impl Default for DownloadOptions {
    fn default() -> (r: Self)
        ensures
            r.is_default(),
    {
        Self::new()
    }
}

} // verus!
