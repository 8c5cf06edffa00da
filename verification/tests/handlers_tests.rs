use musicfs::flac::FlacHandler;
use musicfs::handlers::FormatHandlerRegistry;
use musicfs::id3v2::Id3v2Handler;

#[test]
fn lookup_by_format_and_extension() {
    let mut registry: FormatHandlerRegistry<u32> = FormatHandlerRegistry::new();
    registry.register("flac", &["flac"], 1);
    registry.register("id3v2", &["mp3", "mp2"], 2);

    assert_eq!(registry.get_by_format("flac"), Some(&1));
    assert_eq!(registry.get_by_format("id3v2"), Some(&2));
    assert_eq!(registry.get_by_format("ogg"), None);
    assert_eq!(registry.get_by_extension("mp2"), Some(&2));
    assert_eq!(registry.get_by_extension("flac"), Some(&1));
    assert_eq!(registry.get_by_extension("MP3"), None);
    assert_eq!(registry.get_by_extension("wav"), None);
}

#[test]
fn later_registration_wins() {
    let mut registry: FormatHandlerRegistry<u32> = FormatHandlerRegistry::default();
    registry.register("a", &["x"], 1);
    registry.register("b", &["x", "y"], 2);
    assert_eq!(registry.get_by_extension("x"), Some(&2));
    registry.register("a", &[], 3);
    assert_eq!(registry.get_by_format("a"), Some(&3));
    assert_eq!(registry.get_by_extension("x"), Some(&2));
}

#[test]
fn library_handlers_claim_their_extensions() {
    let flac = FlacHandler::new();
    let id3 = Id3v2Handler::new();
    let mut registry: FormatHandlerRegistry<&str> = FormatHandlerRegistry::new();
    registry.register(flac.id(), &flac.extensions(), "flac handler");
    registry.register(id3.id(), &id3.extensions(), "id3 handler");
    assert_eq!(registry.get_by_extension("flac"), Some(&"flac handler"));
    assert_eq!(registry.get_by_extension("mp3"), Some(&"id3 handler"));
}
