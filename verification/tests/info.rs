use nuts::errors::MintError;
use nuts::nut01::PublicKey;
use nuts::nut04;
use nuts::nut05;
use nuts::nut06::{
    ContactInfo, MintInfo, MintVersion, NutsBuilderError, NutsSettings, NutsSettingsBuilder,
    SupportedSettings,
};

fn nut04_settings() -> nut04::Settings<String, String> {
    nut04::Settings {
        methods: vec![nut04::MintMethodSettings {
            method: "bolt11".to_string(),
            unit: "sat".to_string(),
            min_amount: Some(0),
            max_amount: Some(10000),
            description: true,
        }],
        disabled: false,
    }
}

fn nut05_settings() -> nut05::Settings<String, String> {
    nut05::Settings {
        methods: vec![nut05::MeltMethodSettings {
            method: "bolt11".to_string(),
            unit: "sat".to_string(),
            min_amount: Some(0),
            max_amount: Some(10000),
        }],
        disabled: false,
    }
}

fn nuts_settings() -> NutsSettings<String, String> {
    NutsSettings { nut04: nut04_settings(), nut05: nut05_settings() }
}

#[test]
fn version_encodes_as_compact_string() {
    let v = MintVersion::new("Nutshell".to_string(), "0.15.0".to_string());
    assert_eq!(v.encode(), "Nutshell/0.15.0");
}

#[test]
fn version_round_trips_through_the_compact_form() {
    let v = MintVersion::new("Nutshell".to_string(), "0.15.3".to_string());
    let decoded = MintVersion::decode(&v.encode()).unwrap();
    assert_eq!(decoded, v);
}

#[test]
fn version_decode_splits_at_the_slash() {
    let v = MintVersion::decode("Nutshell/0.15.3").unwrap();
    assert_eq!(v.name, "Nutshell");
    assert_eq!(v.version, "0.15.3");
}

#[test]
fn version_decode_rejects_wrong_slash_counts() {
    assert!(MintVersion::decode("no-slash-here").is_none());
    assert!(MintVersion::decode("a/b/c").is_none());
    assert!(MintVersion::decode("").is_none());
    // one slash with empty parts is within the format
    let v = MintVersion::decode("/x").unwrap();
    assert_eq!(v.name, "");
    assert_eq!(v.version, "x");
}

#[test]
fn builder_reports_the_first_missing_block() {
    let empty: NutsSettingsBuilder<String, String> = NutsSettingsBuilder::new();
    match empty.build() {
        Err(NutsBuilderError::MissingConfig(n)) => assert_eq!(n, 4),
        _ => panic!("expected the minting block to be reported missing"),
    }

    let only04: NutsSettingsBuilder<String, String> =
        NutsSettingsBuilder::new().nut_04(nut04_settings());
    match only04.build() {
        Err(NutsBuilderError::MissingConfig(n)) => assert_eq!(n, 5),
        _ => panic!("expected the melting block to be reported missing"),
    }
}

#[test]
fn builder_builds_once_complete() {
    let mut builder: NutsSettingsBuilder<String, String> =
        NutsSettingsBuilder::new().nut_04(nut04_settings());
    builder.nut05 = Some(nut05_settings());
    let settings = builder.build().unwrap();
    assert_eq!(settings.nut04, nut04_settings());
    assert_eq!(settings.nut05, nut05_settings());
}

#[test]
fn mint_info_setters_fill_the_fields() {
    let info: MintInfo<String, String> = MintInfo {
        name: None,
        pubkey: None,
        version: None,
        description: None,
        description_long: None,
        contact: None,
        nuts: nuts_settings(),
        icon_url: None,
        urls: None,
        motd: None,
        time: None,
    };
    let version = MintVersion::new("Nutshell".to_string(), "0.15.0".to_string());
    let contact = vec![ContactInfo::new("nostr".to_string(), "xxxxx".to_string())];
    let info = info
        .name("Bob's Cashu mint".to_string())
        .pubkey(PublicKey::new(vec![2, 131, 191]))
        .version(version.clone())
        .description("The short mint description".to_string())
        .long_description("A description that can be a long piece of text.".to_string())
        .contact_info(contact.clone())
        .icon_url("https://mint.example/icon.png".to_string())
        .motd("Message to display to users.".to_string())
        .time(1_700_000_000);

    assert_eq!(info.name.as_deref(), Some("Bob's Cashu mint"));
    assert_eq!(info.pubkey.as_ref().unwrap().bytes, vec![2, 131, 191]);
    assert_eq!(info.version, Some(version));
    assert_eq!(info.description.as_deref(), Some("The short mint description"));
    assert_eq!(
        info.description_long.as_deref(),
        Some("A description that can be a long piece of text.")
    );
    assert_eq!(info.contact, Some(contact));
    assert_eq!(info.icon_url.as_deref(), Some("https://mint.example/icon.png"));
    assert_eq!(info.motd.as_deref(), Some("Message to display to users."));
    assert_eq!(info.time, Some(1_700_000_000));
    assert!(info.urls.is_none());
}

#[test]
fn contact_info_keeps_its_parts() {
    let c = ContactInfo::new("email".to_string(), "contact@me.com".to_string());
    assert_eq!(c.method, "email");
    assert_eq!(c.info, "contact@me.com");
}

#[test]
fn supported_settings_default_is_unsupported() {
    let s = SupportedSettings::default();
    assert!(!s.supported);
}

#[test]
fn error_kinds_have_stable_tags() {
    assert_eq!(MintError::UnpaidQuote.as_text(), "unpaid quote");
    assert_eq!(MintError::UnbalancedAmounts(9, 10).as_text(), "unbalanced amounts");
    assert_eq!(MintError::AmountOverflow.as_text(), "amount overflow");
}
