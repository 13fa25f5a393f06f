//! What table properties say of how Parquet files are written.

use vstd::prelude::*;
use vstd::string::*;

use crate::affix::{eq_ignore_case, strip_prefix, to_lower, trim};
use crate::number::parse_u64;
use crate::string_map::str_eq;

verus! {

use crate::affix::{folded_text, law_prefixes, lowered_text, trimmed, without_prefix};
use crate::iceberg::contents::optional_text;
use crate::number::unsigned_value;

/// How the pages of a file are compressed.
#[derive(Debug, Clone, Copy, PartialEq, Eq, Structural)]
#[allow(inconsistent_fields)]
pub enum Compression {
    Uncompressed,
    Snappy,
    Gzip { level: u32 },
    Lzo,
    Brotli { level: u32 },
    Lz4,
    Zstd { level: i32 },
    Lz4Raw,
}

/// How much is known of the values of a column.
#[derive(Debug, Clone, Copy, PartialEq, Eq, Structural)]
pub enum EnabledStatistics {
    /// Nothing. It is written `none` among the properties.
    Off,
    /// What holds of each column of a row group.
    Chunk,
    /// What holds of each page.
    Page,
}

/// What is asked for a column.
#[derive(Debug)]
pub enum ColumnSetting {
    Statistics { column: String, level: EnabledStatistics },
    /// The rate of false positives of a bloom filter, as text.
    BloomFilterFpp { column: String, rate: String },
    /// The number of distinct values of a bloom filter.
    BloomFilterNdv { column: String, count: u64 },
    BloomFilterEnabled { column: String, enabled: bool },
}

/// What is asked for a column, by its contents.
#[allow(inconsistent_fields)]
pub enum ColumnSettingView {
    Statistics { column: Seq<char>, level: EnabledStatistics },
    BloomFilterFpp { column: Seq<char>, rate: Seq<char> },
    BloomFilterNdv { column: Seq<char>, count: u64 },
    BloomFilterEnabled { column: Seq<char>, enabled: bool },
}

impl View for ColumnSetting {
    type V = ColumnSettingView;

    open spec fn view(&self) -> ColumnSettingView {
        match self {
            ColumnSetting::Statistics { column, level } => ColumnSettingView::Statistics {
                column: column@,
                level: *level,
            },
            ColumnSetting::BloomFilterFpp { column, rate } => ColumnSettingView::BloomFilterFpp {
                column: column@,
                rate: rate@,
            },
            ColumnSetting::BloomFilterNdv { column, count } => ColumnSettingView::BloomFilterNdv {
                column: column@,
                count: *count,
            },
            ColumnSetting::BloomFilterEnabled { column, enabled } => {
                ColumnSettingView::BloomFilterEnabled { column: column@, enabled: *enabled }
            },
        }
    }
}

/// How Parquet files are written.
#[derive(Debug)]
pub struct WriterSettings {
    pub compression: Compression,
    pub max_row_group_bytes: Option<u64>,
    pub data_page_size_limit: Option<u64>,
    pub dictionary_page_size_limit: Option<u64>,
    pub statistics: Option<EnabledStatistics>,
    pub columns: Vec<ColumnSetting>,
}

/// A property whose value cannot be read.
#[derive(Debug)]
pub enum SettingError {
    InvalidValue { key: String, value: String },
    /// The level of statistics is none of those that there are.
    InvalidMetrics { value: String },
}

/// A property whose value cannot be read, by its contents.
#[allow(inconsistent_fields)]
pub enum SettingFault {
    InvalidValue { key: Seq<char>, value: Seq<char> },
    InvalidMetrics { value: Seq<char> },
}

impl View for SettingError {
    type V = SettingFault;

    open spec fn view(&self) -> SettingFault {
        match self {
            SettingError::InvalidValue { key, value } => SettingFault::InvalidValue {
                key: key@,
                value: value@,
            },
            SettingError::InvalidMetrics { value } => SettingFault::InvalidMetrics { value: value@ },
        }
    }
}

impl SettingFault {
    pub open spec fn text(self) -> Seq<char> {
        match self {
            SettingFault::InvalidValue { key, value } => "invalid "@ + key + ": "@ + value,
            SettingFault::InvalidMetrics { value } => {
                "invalid write.metadata.metrics.default: "@ + value
                    + " (expected none|counts|full)"@
            },
        }
    }
}

impl SettingError {
    pub fn message(&self) -> (text: String)
        ensures
            text@ == self@.text(),
    {
        match self {
            SettingError::InvalidValue { key, value } => {
                let mut text = "invalid ".to_owned();
                text.append(key.as_str());
                text.append(": ");
                text.append(value.as_str());
                text
            },
            SettingError::InvalidMetrics { value } => {
                let mut text = "invalid write.metadata.metrics.default: ".to_owned();
                text.append(value.as_str());
                text.append(" (expected none|counts|full)");
                text
            },
        }
    }
}

/// The value of the first property with the given key, without regard to case.
pub open spec fn property(properties: Seq<(String, String)>, key: Seq<char>) -> Option<Seq<char>>
    decreases properties.len(),
{
    if properties.len() == 0 {
        None
    } else if folded_text(properties[0].0@) == folded_text(key) {
        Some(properties[0].1@)
    } else {
        property(properties.skip(1), key)
    }
}

fn find_property(properties: &Vec<(String, String)>, key: &str) -> (value: Option<String>)
    ensures
        optional_text(value) == property(properties@, key@),
{
    assert(properties@.skip(0) =~= properties@);
    for i in 0..properties.len()
        invariant
            property(properties@, key@) == property(properties@.skip(i as int), key@),
    {
        assert(properties@.skip(i as int)[0] == properties@[i as int]);
        assert(properties@.skip(i as int).skip(1) =~= properties@.skip(i + 1));
        if eq_ignore_case(properties[i].0.as_str(), key) {
            return Some(properties[i].1.clone());
        }
    }
    None
}

/// The number that a value stands for, where it is one and fits.
pub open spec fn number_of(value: Seq<char>) -> Option<u64> {
    match unsigned_value(trimmed(value)) {
        Some(number) if number <= u64::MAX => Some(number as u64),
        _ => None,
    }
}

/// The answer that a value stands for.
pub open spec fn flag_of(value: Seq<char>) -> Option<bool> {
    if trimmed(value) == "true"@ {
        Some(true)
    } else if trimmed(value) == "false"@ {
        Some(false)
    } else {
        None
    }
}

fn read_number(value: &String) -> (number: Option<u64>)
    ensures
        number == number_of(value@),
{
    parse_u64(trim(value.as_str()).as_str())
}

fn read_flag(value: &String) -> (flag: Option<bool>)
    ensures
        flag == flag_of(value@),
{
    let inner = trim(value.as_str());
    if str_eq(inner.as_str(), "true") {
        Some(true)
    } else if str_eq(inner.as_str(), "false") {
        proof {
            reveal_strlit("true");
            reveal_strlit("false");
        }
        Some(false)
    } else {
        None
    }
}

/// What a property says of a size: nothing where it is not there, and a fault where it cannot
/// be read.
pub open spec fn size_setting(properties: Seq<(String, String)>, key: Seq<char>) -> Result<
    Option<u64>,
    SettingFault,
> {
    match property(properties, key) {
        None => Ok(None),
        Some(value) => match number_of(value) {
            Some(size) => Ok(Some(size)),
            None => Err(SettingFault::InvalidValue { key, value }),
        },
    }
}

fn read_size(properties: &Vec<(String, String)>, key: &str) -> (size: Result<
    Option<u64>,
    SettingError,
>)
    ensures
        match size {
            Ok(s) => size_setting(properties@, key@) == Ok::<_, SettingFault>(s),
            Err(e) => size_setting(properties@, key@) == Err::<Option<u64>, _>(e@),
        },
{
    match find_property(properties, key) {
        None => Ok(None),
        Some(value) => match read_number(&value) {
            Some(size) => Ok(Some(size)),
            None => Err(SettingError::InvalidValue { key: key.to_owned(), value }),
        },
    }
}

/// What the properties say of statistics.
pub open spec fn statistics_setting(properties: Seq<(String, String)>) -> Result<
    Option<EnabledStatistics>,
    SettingFault,
> {
    match property(properties, "write.metadata.metrics.default"@) {
        None => Ok(None),
        Some(value) => {
            let word = lowered_text(trimmed(value));
            if word == "none"@ {
                Ok(Some(EnabledStatistics::Off))
            } else if word == "counts"@ {
                Ok(Some(EnabledStatistics::Chunk))
            } else if word == "full"@ {
                Ok(Some(EnabledStatistics::Page))
            } else {
                Err(SettingFault::InvalidMetrics { value: word })
            }
        },
    }
}

fn read_statistics(properties: &Vec<(String, String)>) -> (statistics: Result<
    Option<EnabledStatistics>,
    SettingError,
>)
    ensures
        match statistics {
            Ok(s) => statistics_setting(properties@) == Ok::<_, SettingFault>(s),
            Err(e) => statistics_setting(properties@) == Err::<Option<EnabledStatistics>, _>(e@),
        },
{
    match find_property(properties, "write.metadata.metrics.default") {
        None => Ok(None),
        Some(value) => {
            let word = to_lower(trim(value.as_str()).as_str());
            if str_eq(word.as_str(), "none") {
                Ok(Some(EnabledStatistics::Off))
            } else if str_eq(word.as_str(), "counts") {
                Ok(Some(EnabledStatistics::Chunk))
            } else if str_eq(word.as_str(), "full") {
                Ok(Some(EnabledStatistics::Page))
            } else {
                Err(SettingError::InvalidMetrics { value: word })
            }
        },
    }
}

/// What a property asks for a column. Other properties ask for nothing. A rate is taken as it
/// is where it is known to be a number.
pub open spec fn column_setting(key: Seq<char>, value: Seq<char>, is_rate: bool) -> Result<
    Option<ColumnSettingView>,
    SettingFault,
> {
    let invalid = SettingFault::InvalidValue { key, value };
    match without_prefix(key, "write.parquet."@) {
        None => Ok(None),
        Some(rest) => match without_prefix(rest, "stats-enabled.column."@) {
            Some(column) => match flag_of(value) {
                Some(enabled) => Ok(
                    Some(
                        ColumnSettingView::Statistics {
                            column,
                            level: if enabled {
                                EnabledStatistics::Page
                            } else {
                                EnabledStatistics::Off
                            },
                        },
                    ),
                ),
                None => Err(invalid),
            },
            None => match without_prefix(rest, "bloom-filter-fpp.column."@) {
                Some(column) => if is_rate {
                    Ok(
                        Some(
                            ColumnSettingView::BloomFilterFpp { column, rate: trimmed(value) },
                        ),
                    )
                } else {
                    Err(invalid)
                },
                None => match without_prefix(rest, "bloom-filter-ndv.column."@) {
                    Some(column) => match number_of(value) {
                        Some(count) => Ok(
                            Some(ColumnSettingView::BloomFilterNdv { column, count }),
                        ),
                        None => Err(invalid),
                    },
                    None => match without_prefix(rest, "bloom-filter-enabled.column."@) {
                        Some(column) => match flag_of(value) {
                            Some(enabled) => Ok(
                                Some(ColumnSettingView::BloomFilterEnabled { column, enabled }),
                            ),
                            None => Err(invalid),
                        },
                        None => Ok(None),
                    },
                },
            },
        },
    }
}

/// A setting, by its contents.
pub open spec fn setting_view(setting: Option<ColumnSetting>) -> Option<ColumnSettingView> {
    match setting {
        Some(s) => Some(s@),
        None => None,
    }
}

fn read_column(key: &String, value: &String, is_rate: bool) -> (setting: Result<
    Option<ColumnSetting>,
    SettingError,
>)
    ensures
        match setting {
            Ok(s) => column_setting(key@, value@, is_rate) == Ok::<_, SettingFault>(
                setting_view(s),
            ),
            Err(e) => column_setting(key@, value@, is_rate) == Err::<
                Option<ColumnSettingView>,
                _,
            >(e@),
        },
{
    let rest = match strip_prefix(key.as_str(), "write.parquet.") {
        Some(rest) => rest,
        None => {
            return Ok(None);
        },
    };
    match strip_prefix(rest.as_str(), "stats-enabled.column.") {
        Some(column) => {
            return match read_flag(value) {
                Some(enabled) => {
                    let level = if enabled {
                        EnabledStatistics::Page
                    } else {
                        EnabledStatistics::Off
                    };
                    Ok(Some(ColumnSetting::Statistics { column, level }))
                },
                None => Err(
                    SettingError::InvalidValue { key: key.clone(), value: value.clone() },
                ),
            };
        },
        None => {},
    }
    match strip_prefix(rest.as_str(), "bloom-filter-fpp.column.") {
        Some(column) => {
            return if is_rate {
                Ok(Some(ColumnSetting::BloomFilterFpp { column, rate: trim(value.as_str()) }))
            } else {
                Err(SettingError::InvalidValue { key: key.clone(), value: value.clone() })
            };
        },
        None => {},
    }
    match strip_prefix(rest.as_str(), "bloom-filter-ndv.column.") {
        Some(column) => {
            return match read_number(value) {
                Some(count) => Ok(Some(ColumnSetting::BloomFilterNdv { column, count })),
                None => Err(
                    SettingError::InvalidValue { key: key.clone(), value: value.clone() },
                ),
            };
        },
        None => {},
    }
    match strip_prefix(rest.as_str(), "bloom-filter-enabled.column.") {
        Some(column) => match read_flag(value) {
            Some(enabled) => Ok(Some(ColumnSetting::BloomFilterEnabled { column, enabled })),
            None => Err(SettingError::InvalidValue { key: key.clone(), value: value.clone() }),
        },
        None => Ok(None),
    }
}

/// What the properties ask for columns, in order, or the first fault among them. The flags say
/// which values are numbers with a fraction.
pub open spec fn column_settings(properties: Seq<(String, String)>, rates: Seq<bool>) -> Result<
    Seq<ColumnSettingView>,
    SettingFault,
>
    decreases properties.len(),
{
    if properties.len() == 0 {
        Ok(Seq::empty())
    } else {
        match column_settings(properties.drop_last(), rates) {
            Err(fault) => Err(fault),
            Ok(before) => match column_setting(
                properties.last().0@,
                properties.last().1@,
                rates[properties.len() - 1],
            ) {
                Err(fault) => Err(fault),
                Ok(None) => Ok(before),
                Ok(Some(setting)) => Ok(before.push(setting)),
            },
        }
    }
}

proof fn lemma_settings_fault(properties: Seq<(String, String)>, rates: Seq<bool>, n: int)
    requires
        0 <= n <= properties.len(),
    ensures
        column_settings(properties.take(n), rates) is Err ==> column_settings(properties, rates)
            == column_settings(properties.take(n), rates),
    decreases properties.len() - n,
{
    if n < properties.len() {
        lemma_settings_fault(properties, rates, n + 1);
        assert(properties.take(n + 1).drop_last() =~= properties.take(n));
    } else {
        assert(properties.take(n) =~= properties);
    }
}

/// Settings of columns, by their contents.
pub open spec fn setting_views(settings: Seq<ColumnSetting>) -> Seq<ColumnSettingView> {
    settings.map_values(|setting: ColumnSetting| setting@)
}

fn read_columns(properties: &Vec<(String, String)>, rates: &Vec<bool>) -> (settings: Result<
    Vec<ColumnSetting>,
    SettingError,
>)
    requires
        properties@.len() == rates@.len(),
    ensures
        match settings {
            Ok(s) => column_settings(properties@, rates@) == Ok::<_, SettingFault>(
                setting_views(s@),
            ),
            Err(e) => column_settings(properties@, rates@) == Err::<Seq<ColumnSettingView>, _>(e@),
        },
{
    let mut settings: Vec<ColumnSetting> = Vec::new();
    assert(setting_views(settings@) =~= Seq::<ColumnSettingView>::empty());
    for i in 0..properties.len()
        invariant
            properties@.len() == rates@.len(),
            column_settings(properties@.take(i as int), rates@) == Ok::<_, SettingFault>(
                setting_views(settings@),
            ),
    {
        let ghost before = setting_views(settings@);
        proof {
            assert(properties@.take(i + 1).drop_last() =~= properties@.take(i as int));
            lemma_settings_fault(properties@, rates@, i + 1);
        }
        match read_column(&properties[i].0, &properties[i].1, rates[i]) {
            Err(e) => {
                return Err(e);
            },
            Ok(None) => {},
            Ok(Some(setting)) => {
                let ghost view = setting@;
                settings.push(setting);
                assert(setting_views(settings@) =~= before.push(view));
            },
        }
    }
    assert(properties@.take(properties@.len() as int) =~= properties@);
    Ok(settings)
}

/// Whether settings are what the properties say.
pub open spec fn settings_match(
    settings: WriterSettings,
    properties: Seq<(String, String)>,
    rates: Seq<bool>,
) -> bool {
    &&& size_setting(properties, "write.parquet.row-group-size-bytes"@) == Ok::<_, SettingFault>(
        settings.max_row_group_bytes,
    )
    &&& size_setting(properties, "write.parquet.page-size-bytes"@) == Ok::<_, SettingFault>(
        settings.data_page_size_limit,
    )
    &&& size_setting(properties, "write.parquet.dict-size-bytes"@) == Ok::<_, SettingFault>(
        settings.dictionary_page_size_limit,
    )
    &&& statistics_setting(properties) == Ok::<_, SettingFault>(settings.statistics)
    &&& column_settings(properties, rates) == Ok::<_, SettingFault>(
        setting_views(settings.columns@),
    )
}

/// The first fault among the properties: in the sizes, the statistics, the columns.
pub open spec fn first_setting_fault(properties: Seq<(String, String)>, rates: Seq<bool>) -> Option<
    SettingFault,
> {
    match size_setting(properties, "write.parquet.row-group-size-bytes"@) {
        Err(fault) => Some(fault),
        Ok(_) => match size_setting(properties, "write.parquet.page-size-bytes"@) {
            Err(fault) => Some(fault),
            Ok(_) => match size_setting(properties, "write.parquet.dict-size-bytes"@) {
                Err(fault) => Some(fault),
                Ok(_) => match statistics_setting(properties) {
                    Err(fault) => Some(fault),
                    Ok(_) => match column_settings(properties, rates) {
                        Err(fault) => Some(fault),
                        Ok(_) => None,
                    },
                },
            },
        },
    }
}

/// How Parquet files are written: with the given compression, and as the table properties say. The
/// flags say which values are numbers with a fraction; properties that are not known are passed
/// over.
pub fn build_writer_properties(
    table_properties: &Vec<(String, String)>,
    rates: &Vec<bool>,
    compression: Compression,
) -> (settings: Result<WriterSettings, SettingError>)
    requires
        table_properties@.len() == rates@.len(),
    ensures
        match settings {
            Ok(s) => first_setting_fault(table_properties@, rates@) is None && settings_match(
                s,
                table_properties@,
                rates@,
            ) && s.compression == compression,
            Err(e) => first_setting_fault(table_properties@, rates@) == Some(e@),
        },
{
    let max_row_group_bytes = match read_size(
        table_properties,
        "write.parquet.row-group-size-bytes",
    ) {
        Ok(size) => size,
        Err(e) => {
            return Err(e);
        },
    };
    let data_page_size_limit = match read_size(table_properties, "write.parquet.page-size-bytes") {
        Ok(size) => size,
        Err(e) => {
            return Err(e);
        },
    };
    let dictionary_page_size_limit = match read_size(
        table_properties,
        "write.parquet.dict-size-bytes",
    ) {
        Ok(size) => size,
        Err(e) => {
            return Err(e);
        },
    };
    let statistics = match read_statistics(table_properties) {
        Ok(statistics) => statistics,
        Err(e) => {
            return Err(e);
        },
    };
    let columns = match read_columns(table_properties, rates) {
        Ok(columns) => columns,
        Err(e) => {
            return Err(e);
        },
    };
    Ok(
        WriterSettings {
            compression,
            max_row_group_bytes,
            data_page_size_limit,
            dictionary_page_size_limit,
            statistics,
            columns,
        },
    )
}

/// The value of a property is that of the first one with its key, whatever the case of the key.
pub proof fn law_first_properties_count(properties: Seq<(String, String)>, key: Seq<char>)
    ensures
        match property(properties, key) {
            Some(value) => exists|i: int|
                0 <= i < properties.len() && folded_text((#[trigger] properties[i]).0@)
                    == folded_text(key) && properties[i].1@ == value && forall|j: int|
                    0 <= j < i ==> folded_text((#[trigger] properties[j]).0@) != folded_text(key),
            None => forall|i: int|
                0 <= i < properties.len() ==> folded_text((#[trigger] properties[i]).0@)
                    != folded_text(key),
        },
    decreases properties.len(),
{
    if properties.len() > 0 {
        if folded_text(properties[0].0@) == folded_text(key) {
            assert(properties[0].1@ == property(properties, key)->0);
        } else {
            let rest = properties.skip(1);
            law_first_properties_count(rest, key);
            match property(rest, key) {
                Some(value) => {
                    let k = choose|k: int|
                        0 <= k < rest.len() && folded_text((#[trigger] rest[k]).0@) == folded_text(
                            key,
                        ) && rest[k].1@ == value && forall|j: int|
                            0 <= j < k ==> folded_text((#[trigger] rest[j]).0@) != folded_text(key);
                    assert(properties[k + 1] == rest[k]);
                    assert forall|j: int| 0 <= j < k + 1 implies folded_text(
                        (#[trigger] properties[j]).0@,
                    ) != folded_text(key) by {
                        if j > 0 {
                            assert(rest[j - 1] == properties[j]);
                        }
                    }
                },
                None => {
                    assert forall|j: int| 0 <= j < properties.len() implies folded_text(
                        (#[trigger] properties[j]).0@,
                    ) != folded_text(key) by {
                        if j > 0 {
                            assert(rest[j - 1] == properties[j]);
                        }
                    }
                },
            }
        }
    }
}

proof fn lemma_prefix_of(prefix: Seq<char>, column: Seq<char>, other: Seq<char>, at: int)
    requires
        0 <= at < prefix.len(),
        at < other.len(),
        prefix[at] != other[at],
    ensures
        without_prefix(prefix + column, prefix) == Some(column),
        without_prefix(prefix + column, other) is None,
{
    law_prefixes(prefix, prefix, column);
    let key = prefix + column;
    if other.len() <= key.len() && key.take(other.len() as int) == other {
        assert(key.take(other.len() as int)[at] == prefix[at]);
    }
}

/// What a property asks for a column. Whatever the name of the column, its statistics, the rate
/// and the number of values of its bloom filter, and whether it has one, are each asked for by a
/// key of their own, behind which the name stands. A value that cannot be read is a fault. A
/// property that does not concern Parquet asks for nothing.
pub proof fn law_column_settings(column: Seq<char>, value: Seq<char>, is_rate: bool, key: Seq<char>)
    ensures
        ({
            let stats = "write.parquet."@ + ("stats-enabled.column."@ + column);
            let fpp = "write.parquet."@ + ("bloom-filter-fpp.column."@ + column);
            let ndv = "write.parquet."@ + ("bloom-filter-ndv.column."@ + column);
            let enabled = "write.parquet."@ + ("bloom-filter-enabled.column."@ + column);
            &&& column_setting(stats, value, is_rate) == (match flag_of(value) {
                Some(on) => Ok(
                    Some(
                        ColumnSettingView::Statistics {
                            column,
                            level: if on {
                                EnabledStatistics::Page
                            } else {
                                EnabledStatistics::Off
                            },
                        },
                    ),
                ),
                None => Err(SettingFault::InvalidValue { key: stats, value }),
            })
            &&& is_rate ==> column_setting(fpp, value, is_rate) == Ok::<_, SettingFault>(
                Some(ColumnSettingView::BloomFilterFpp { column, rate: trimmed(value) }),
            )
            &&& !is_rate ==> column_setting(fpp, value, is_rate) == Err::<
                Option<ColumnSettingView>,
                _,
            >(SettingFault::InvalidValue { key: fpp, value })
            &&& column_setting(ndv, value, is_rate) == (match number_of(value) {
                Some(count) => Ok(Some(ColumnSettingView::BloomFilterNdv { column, count })),
                None => Err(SettingFault::InvalidValue { key: ndv, value }),
            })
            &&& column_setting(enabled, value, is_rate) == (match flag_of(value) {
                Some(on) => Ok(
                    Some(ColumnSettingView::BloomFilterEnabled { column, enabled: on }),
                ),
                None => Err(SettingFault::InvalidValue { key: enabled, value }),
            })
        }),
        without_prefix(key, "write.parquet."@) is None ==> column_setting(key, value, is_rate)
            == Ok::<Option<ColumnSettingView>, SettingFault>(None),
{
    reveal_strlit("stats-enabled.column.");
    reveal_strlit("bloom-filter-fpp.column.");
    reveal_strlit("bloom-filter-ndv.column.");
    reveal_strlit("bloom-filter-enabled.column.");
    let write = "write.parquet."@;
    let (stats, fpp) = ("stats-enabled.column."@, "bloom-filter-fpp.column."@);
    let (ndv, enabled) = ("bloom-filter-ndv.column."@, "bloom-filter-enabled.column."@);
    law_prefixes(write, write, stats + column);
    law_prefixes(write, write, fpp + column);
    law_prefixes(write, write, ndv + column);
    law_prefixes(write, write, enabled + column);
    lemma_prefix_of(stats, column, fpp, 0);
    lemma_prefix_of(fpp, column, stats, 0);
    lemma_prefix_of(ndv, column, stats, 0);
    lemma_prefix_of(ndv, column, fpp, 13);
    lemma_prefix_of(enabled, column, stats, 0);
    lemma_prefix_of(enabled, column, fpp, 13);
    lemma_prefix_of(enabled, column, ndv, 13);
}

/// Of the words for statistics each has its level, whatever its case and the white space around
/// it, and no other word has one.
pub proof fn law_statistics_settings(properties: Seq<(String, String)>)
    ensures
        match property(properties, "write.metadata.metrics.default"@) {
            None => statistics_setting(properties) == Ok::<
                Option<EnabledStatistics>,
                SettingFault,
            >(None),
            Some(value) => {
                let word = lowered_text(trimmed(value));
                &&& word == "none"@ ==> statistics_setting(properties) == Ok::<_, SettingFault>(
                    Some(EnabledStatistics::Off),
                )
                &&& word == "counts"@ ==> statistics_setting(properties) == Ok::<_, SettingFault>(
                    Some(EnabledStatistics::Chunk),
                )
                &&& word == "full"@ ==> statistics_setting(properties) == Ok::<_, SettingFault>(
                    Some(EnabledStatistics::Page),
                )
                &&& word != "none"@ && word != "counts"@ && word != "full"@ ==> statistics_setting(
                    properties,
                ) == Err::<Option<EnabledStatistics>, _>(
                    SettingFault::InvalidMetrics { value: word },
                )
            },
        },
{
    reveal_strlit("none");
    reveal_strlit("counts");
    reveal_strlit("full");
    assert("none"@[0] == 'n' && "counts"@[0] == 'c' && "full"@[0] == 'f');
}

/// A size that is not set is not known; one that is set is the number that its value stands for,
/// and a fault where it stands for none.
pub proof fn law_size_settings(properties: Seq<(String, String)>, key: Seq<char>)
    ensures
        property(properties, key) is None ==> size_setting(properties, key) == Ok::<
            Option<u64>,
            SettingFault,
        >(None),
        property(properties, key) matches Some(value) ==> match unsigned_value(trimmed(value)) {
            Some(size) if size <= u64::MAX => size_setting(properties, key) == Ok::<
                _,
                SettingFault,
            >(Some(size as u64)),
            _ => size_setting(properties, key) == Err::<Option<u64>, _>(
                SettingFault::InvalidValue { key, value },
            ),
        },
{
}

/// The settings of columns are those of the properties, in their order; the first fault among
/// them is the fault of all.
pub proof fn law_column_settings_follow_properties(
    properties: Seq<(String, String)>,
    rates: Seq<bool>,
    property: (String, String),
)
    requires
        properties.len() < rates.len(),
    ensures
        column_settings(Seq::empty(), rates) == Ok::<Seq<ColumnSettingView>, SettingFault>(
            Seq::empty(),
        ),
        ({
            let before = column_settings(properties, rates);
            let own = column_setting(property.0@, property.1@, rates[properties.len() as int]);
            let after = column_settings(properties.push(property), rates);
            &&& before is Err ==> after == before
            &&& before is Ok && own is Err ==> after == Err::<Seq<ColumnSettingView>, _>(
                own->Err_0,
            )
            &&& before is Ok && own == Ok::<Option<ColumnSettingView>, SettingFault>(None) ==> after
                == before
            &&& (before is Ok && own is Ok && own->Ok_0 is Some) ==> after == Ok::<
                _,
                SettingFault,
            >(before->Ok_0.push(own->Ok_0->0))
        }),
{
    assert(properties.push(property).drop_last() =~= properties);
}

/// A value says yes or no in these words and no others, with space around them or without.
pub proof fn law_flags(value: Seq<char>)
    ensures
        flag_of(value) == Some(true) <==> trimmed(value) == "true"@,
        flag_of(value) == Some(false) <==> trimmed(value) == "false"@,
{
    reveal_strlit("true");
    reveal_strlit("false");
    assert("true"@.len() == 4 && "false"@.len() == 5);
}

/// The settings are those of the table: each size is the number that its own property stands for,
/// and not known where the table does not set it.
pub proof fn law_settings_follow_properties(
    properties: Vec<(String, String)>,
    rates: Vec<bool>,
    compression: Compression,
    settings: Result<WriterSettings, SettingError>,
)
    requires
        call_ensures(build_writer_properties, (&properties, &rates, compression), settings),
    ensures
        ({
            let groups = property(properties@, "write.parquet.row-group-size-bytes"@);
            let pages = property(properties@, "write.parquet.page-size-bytes"@);
            let dictionaries = property(properties@, "write.parquet.dict-size-bytes"@);
            settings matches Ok(s) ==> {
                &&& s.compression == compression
                &&& groups is None ==> s.max_row_group_bytes is None
                &&& groups is Some ==> s.max_row_group_bytes is Some && unsigned_value(
                    trimmed(groups->0),
                ) == Some(s.max_row_group_bytes->0 as nat)
                &&& pages is None ==> s.data_page_size_limit is None
                &&& pages is Some ==> s.data_page_size_limit is Some && unsigned_value(
                    trimmed(pages->0),
                ) == Some(s.data_page_size_limit->0 as nat)
                &&& dictionaries is None ==> s.dictionary_page_size_limit is None
                &&& dictionaries is Some ==> s.dictionary_page_size_limit is Some && unsigned_value(
                    trimmed(dictionaries->0),
                ) == Some(s.dictionary_page_size_limit->0 as nat)
            }
        }),
{
    law_size_settings(properties@, "write.parquet.row-group-size-bytes"@);
    law_size_settings(properties@, "write.parquet.page-size-bytes"@);
    law_size_settings(properties@, "write.parquet.dict-size-bytes"@);
}

/// A size that cannot be read, or a level of statistics that there is not, is a fault of the
/// settings; the first of them is what is told, sizes before statistics.
pub proof fn law_unreadable_settings_are_faults(
    properties: Vec<(String, String)>,
    rates: Vec<bool>,
    compression: Compression,
    settings: Result<WriterSettings, SettingError>,
)
    requires
        call_ensures(build_writer_properties, (&properties, &rates, compression), settings),
    ensures
        ({
            let groups = size_setting(properties@, "write.parquet.row-group-size-bytes"@);
            let pages = size_setting(properties@, "write.parquet.page-size-bytes"@);
            let dictionaries = size_setting(properties@, "write.parquet.dict-size-bytes"@);
            let statistics = statistics_setting(properties@);
            &&& groups matches Err(fault) ==> settings is Err && settings->Err_0@ == fault
            &&& groups is Ok && pages is Err ==> settings is Err && settings->Err_0@
                == pages->Err_0
            &&& groups is Ok && pages is Ok && dictionaries is Err ==> settings is Err
                && settings->Err_0@ == dictionaries->Err_0
            &&& groups is Ok && pages is Ok && dictionaries is Ok && statistics is Err
                ==> settings is Err && settings->Err_0@ == statistics->Err_0
            &&& settings is Ok ==> statistics == Ok::<_, SettingFault>(settings->Ok_0.statistics)
        }),
{
}

} // verus!
