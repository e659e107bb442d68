//! What an operator can ask for, and what is refused before anything on the
//! system is touched.

use crate::export::elements::MIN_TEMPLATE_ID;
use crate::export::reading;
use crate::export::template::{
    CounterWidth, CounterWidthError, Profile, Protocol, Template, TemplateError,
};
use vstd::prelude::*;

verus! {

/// The export settings as they were given.
#[derive(Debug, Clone, Copy)]
pub struct ExportOptions {
    pub protocol: Protocol,
    pub profile: Profile,
    /// Byte and packet counter width in bytes.
    pub counter_width: u8,
    pub template_id: u16,
    /// Seconds between template retransmissions.
    pub template_interval: u64,
}

/// Export settings that can be worked with.
#[derive(Debug, Clone)]
pub struct ExportSettings {
    pub template: Template,
    /// Seconds between template retransmissions.
    pub template_interval: u64,
}

/// Why export settings are refused.
#[derive(Debug, Clone, Copy, PartialEq, Eq, Structural)]
pub enum ConfigError {
    CounterWidth(CounterWidthError),
    Template(TemplateError),
    /// A zero interval would retransmit the template on every pass of the event
    /// loop.
    TemplateInterval,
}

impl ConfigError {
    /// The error, for the operator.
    pub fn to_string(&self) -> (line: String)
        ensures
            match *self {
                ConfigError::CounterWidth(error) => line@ == error.line(),
                ConfigError::Template(error) => line@ == error.line(),
                ConfigError::TemplateInterval => line@
                    == "--template-interval must be at least 1 second"@,
            },
    {
        match *self {
            ConfigError::CounterWidth(error) => error.to_string(),
            ConfigError::Template(error) => error.to_string(),
            ConfigError::TemplateInterval => {
                let mut line: String = String::new();
                line.append("--template-interval must be at least 1 second");
                line
            },
        }
    }
}

impl ExportOptions {
    /// Why the settings are refused, if they are: the counter width has to be
    /// four or eight bytes, the template ID outside the reserved range, and the
    /// interval at least a second. The first of these that does not hold is
    /// reported.
    pub open spec fn refusal(self) -> Option<ConfigError> {
        if self.counter_width != 4 && self.counter_width != 8 {
            Some(ConfigError::CounterWidth(CounterWidthError { bytes: self.counter_width }))
        } else if self.template_id < MIN_TEMPLATE_ID {
            Some(ConfigError::Template(TemplateError::ReservedTemplateId(self.template_id)))
        } else if self.template_interval == 0 {
            Some(ConfigError::TemplateInterval)
        } else {
            None
        }
    }

    /// `settings` is what these settings stand for, once they are accepted.
    pub open spec fn stands_for(self, settings: ExportSettings) -> bool {
        &&& settings.template_interval == self.template_interval
        &&& settings.template.wf()
        &&& settings.template.resolved(
            self.protocol,
            self.profile,
            if self.counter_width == 4 {
                CounterWidth::Four
            } else {
                CounterWidth::Eight
            },
            self.template_id,
        )
    }

    /// Check the settings and work out the template they stand for.
    pub fn validate(&self) -> (settings: Result<ExportSettings, ConfigError>)
        ensures
            match settings {
                Ok(settings) => self.refusal() is None && self.stands_for(settings),
                Err(error) => self.refusal() == Some(error),
            },
    {
        let counter_width: CounterWidth = match CounterWidth::from_bytes(self.counter_width) {
            Ok(width) => width,
            Err(error) => {
                return Err(ConfigError::CounterWidth(error));
            },
        };
        let template: Template = match Template::resolve(
            self.protocol,
            self.profile,
            counter_width,
            self.template_id,
        ) {
            Ok(template) => template,
            Err(error) => {
                return Err(ConfigError::Template(error));
            },
        };
        if self.template_interval == 0 {
            return Err(ConfigError::TemplateInterval);
        }
        Ok(ExportSettings { template, template_interval: self.template_interval })
    }
}

/// Settings are refused exactly if the counter width is neither four nor eight, the
/// template ID is below 256, or the interval is not even a second, and the first of
/// these is what is reported, with the value that was given.
pub proof fn law_refusals(options: ExportOptions)
    ensures
        ({
            let width = options.counter_width == 4 || options.counter_width == 8;
            let id = options.template_id >= 256;
            let interval = options.template_interval >= 1;
            &&& options.refusal() is None <==> width && id && interval
            &&& options.refusal() == Some(
                ConfigError::CounterWidth(CounterWidthError { bytes: options.counter_width }),
            ) <==> !width
            &&& options.refusal() == Some(
                ConfigError::Template(TemplateError::ReservedTemplateId(options.template_id)),
            ) <==> width && !id
            &&& options.refusal() == Some(ConfigError::TemplateInterval) <==> width && id
                && !interval
        }),
{
}

/// Settings that are accepted are the ones that are worked with.
pub proof fn law_settings_are_kept(options: ExportOptions, settings: ExportSettings)
    requires
        options.refusal() is None,
        options.stands_for(settings),
    ensures
        settings.template_interval == options.template_interval,
        settings.template.protocol == options.protocol,
        settings.template.profile == options.profile,
        settings.template.template_id == options.template_id,
        settings.template.counter_width is Four <==> options.counter_width == 4,
        settings.template.counter_width is Eight <==> options.counter_width == 8,
        settings.template.fields@ == reading::fields_of(
            options.protocol,
            options.profile,
            settings.template.counter_width,
        ),
        settings.template.record_size == reading::record_len_of(
            options.profile,
            settings.template.counter_width,
        ),
{
    reading::law_sizes(
        settings.template,
        options.protocol,
        options.profile,
        settings.template.counter_width,
        options.template_id,
        0,
    );
}

} // verus!
