//! Options that control how values are rendered.

use vstd::prelude::*;

verus! {

/// Format for displaying datetime values
#[derive(Debug, Clone, Copy, PartialEq, Eq, Hash)]
pub enum TimeFormat<'a> {
    /// RFC 3339 format
    Rfc3339,
    /// Custom format specified by the format string
    Custom(&'a str),
    /// Spark format
    Spark,
}

/// Format for displaying durations
#[derive(Debug, Clone, Copy, PartialEq, Eq, Hash)]
#[non_exhaustive]
pub enum DurationFormat {
    /// ISO 8601 format
    Iso8601,
    /// Spark format (displayed as intervals)
    Spark,
}

/// The mathematical content of a [`TimeFormat`].
pub enum TimeFormatView {
    Rfc3339,
    Custom(Seq<char>),
    Spark,
}

impl<'a> View for TimeFormat<'a> {
    type V = TimeFormatView;

    open spec fn view(&self) -> TimeFormatView {
        match *self {
            TimeFormat::Rfc3339 => TimeFormatView::Rfc3339,
            TimeFormat::Custom(s) => TimeFormatView::Custom(s@),
            TimeFormat::Spark => TimeFormatView::Spark,
        }
    }
}

/// The mathematical content of [`FormatOptions`].
pub struct FormatOptionsView {
    pub safe: bool,
    pub null: Seq<char>,
    pub date_format: TimeFormatView,
    pub datetime_format: TimeFormatView,
    pub timestamp_format: TimeFormatView,
    pub timestamp_tz_format: TimeFormatView,
    pub time_format: TimeFormatView,
    pub duration_format: DurationFormat,
}

/// Options for formatting arrays
///
/// By default, nulls are formatted as `""` and temporal types formatted
/// according to RFC3339
#[derive(Debug, Clone, Copy, PartialEq, Eq, Hash)]
pub struct FormatOptions<'a> {
    /// If set to `true` any formatting errors will be written to the output
    /// instead of being reported as a failure
    safe: bool,
    /// Format string for nulls
    null: &'a str,
    /// Date format for date arrays
    date_format: TimeFormat<'a>,
    /// Format for DateTime arrays
    datetime_format: TimeFormat<'a>,
    /// Timestamp format for timestamp arrays
    timestamp_format: TimeFormat<'a>,
    /// Timestamp format for timestamp with timezone arrays
    timestamp_tz_format: TimeFormat<'a>,
    /// Time format for time arrays
    time_format: TimeFormat<'a>,
    /// Duration format
    duration_format: DurationFormat,
}

impl<'a> View for FormatOptions<'a> {
    type V = FormatOptionsView;

    closed spec fn view(&self) -> FormatOptionsView {
        FormatOptionsView {
            safe: self.safe,
            null: self.null@,
            date_format: self.date_format@,
            datetime_format: self.datetime_format@,
            timestamp_format: self.timestamp_format@,
            timestamp_tz_format: self.timestamp_tz_format@,
            time_format: self.time_format@,
            duration_format: self.duration_format,
        }
    }
}

/// The options that [`FormatOptions::new`] gives.
pub open spec fn default_options_view() -> FormatOptionsView {
    FormatOptionsView {
        safe: true,
        null: seq![],
        date_format: TimeFormatView::Rfc3339,
        datetime_format: TimeFormatView::Rfc3339,
        timestamp_format: TimeFormatView::Rfc3339,
        timestamp_tz_format: TimeFormatView::Rfc3339,
        time_format: TimeFormatView::Rfc3339,
        duration_format: DurationFormat::Spark,
    }
}

impl Default for FormatOptions<'_> {
    fn default() -> (r: Self)
        ensures
            r@ == default_options_view(),
    {
        Self::new()
    }
}

impl<'a> FormatOptions<'a> {
    pub fn new() -> (r: Self)
        ensures
            r@ == default_options_view(),
    {
        proof {
            reveal_strlit("");
        }
        let r = Self {
            safe: true,
            null: "",
            date_format: TimeFormat::Rfc3339,
            datetime_format: TimeFormat::Rfc3339,
            timestamp_format: TimeFormat::Rfc3339,
            timestamp_tz_format: TimeFormat::Rfc3339,
            time_format: TimeFormat::Rfc3339,
            duration_format: DurationFormat::Spark,
        };
        assert(r.null@ =~= Seq::<char>::empty());
        assert(r@ == default_options_view());
        r
    }

    /// If set to `true` any formatting errors will be written to the output
    /// instead of being reported as a failure
    pub fn with_display_error(self, safe: bool) -> (r: Self)
        ensures
            r@ == (FormatOptionsView { safe, ..self@ }),
    {
        let mut s = self;
        s.safe = safe;
        s
    }

    /// Overrides the string used to represent a null
    pub fn with_null(self, null: &'a str) -> (r: Self)
        ensures
            r@ == (FormatOptionsView { null: null@, ..self@ }),
    {
        Self { null, ..self }
    }

    /// Overrides the format used for date columns
    pub fn with_date_format(self, date_format: TimeFormat<'a>) -> (r: Self)
        ensures
            r@ == (FormatOptionsView { date_format: date_format@, ..self@ }),
    {
        Self { date_format, ..self }
    }

    /// Overrides the format used for datetime columns
    pub fn with_datetime_format(self, datetime_format: TimeFormat<'a>) -> (r: Self)
        ensures
            r@ == (FormatOptionsView { datetime_format: datetime_format@, ..self@ }),
    {
        Self { datetime_format, ..self }
    }

    /// Overrides the format used for timestamp columns without a timezone
    pub fn with_timestamp_format(self, timestamp_format: TimeFormat<'a>) -> (r: Self)
        ensures
            r@ == (FormatOptionsView { timestamp_format: timestamp_format@, ..self@ }),
    {
        Self { timestamp_format, ..self }
    }

    /// Overrides the format used for timestamp columns with a timezone
    pub fn with_timestamp_tz_format(self, timestamp_tz_format: TimeFormat<'a>) -> (r: Self)
        ensures
            r@ == (FormatOptionsView { timestamp_tz_format: timestamp_tz_format@, ..self@ }),
    {
        Self { timestamp_tz_format, ..self }
    }

    /// Overrides the format used for time columns
    pub fn with_time_format(self, time_format: TimeFormat<'a>) -> (r: Self)
        ensures
            r@ == (FormatOptionsView { time_format: time_format@, ..self@ }),
    {
        Self { time_format, ..self }
    }

    /// Overrides the format used for duration columns
    pub fn with_duration_format(self, duration_format: DurationFormat) -> (r: Self)
        ensures
            r@ == (FormatOptionsView { duration_format, ..self@ }),
    {
        Self { duration_format, ..self }
    }

    /// Whether formatting errors are written to the output.
    pub fn safe(&self) -> (r: bool)
        ensures
            r == self@.safe,
    {
        self.safe
    }

    /// The string written for a null value.
    pub fn null(&self) -> (r: &'a str)
        ensures
            r@ == self@.null,
    {
        self.null
    }

    /// The format of date columns.
    pub fn date_format(&self) -> (r: TimeFormat<'a>)
        ensures
            r@ == self@.date_format,
    {
        self.date_format
    }

    /// The format of datetime columns.
    pub fn datetime_format(&self) -> (r: TimeFormat<'a>)
        ensures
            r@ == self@.datetime_format,
    {
        self.datetime_format
    }

    /// The format of timestamp columns without a timezone.
    pub fn timestamp_format(&self) -> (r: TimeFormat<'a>)
        ensures
            r@ == self@.timestamp_format,
    {
        self.timestamp_format
    }

    /// The format of timestamp columns with a timezone.
    pub fn timestamp_tz_format(&self) -> (r: TimeFormat<'a>)
        ensures
            r@ == self@.timestamp_tz_format,
    {
        self.timestamp_tz_format
    }

    /// The format of time columns.
    pub fn time_format(&self) -> (r: TimeFormat<'a>)
        ensures
            r@ == self@.time_format,
    {
        self.time_format
    }

    /// The format of duration columns.
    pub fn duration_format(&self) -> (r: DurationFormat)
        ensures
            r == self@.duration_format,
    {
        self.duration_format
    }
}

} // verus!
