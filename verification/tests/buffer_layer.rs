//! Tests for the page-buffer substrate: pages, states, geometry, addresses
//! and the buffer's dirty-page discipline.

use fatrs::block_address::BlockAddress;
use fatrs::device::BlockDevice;
use fatrs::domain_error::DomainError;
use fatrs::page::Page;
use fatrs::page_buffer::PageBuffer;
use fatrs::page_config::PageConfig;
use fatrs::page_number::PageNumber;
use fatrs::page_state::PageState;
use fatrs::file::SeekFrom;
use fatrs::stream::{HeapPageStream, StreamError};

#[test]
fn test_heap_page_creation() {
    let data = vec![1, 2, 3, 4];
    let page = Page::new(PageNumber::new(5), data, PageState::Clean);

    assert_eq!(page.number().value(), 5);
    assert_eq!(page.data().as_slice(), &[1, 2, 3, 4]);
    assert!(page.is_clean());
}

#[test]
fn test_stack_page_creation() {
    let data = vec![1u8, 2, 3, 4];
    let page = Page::new(PageNumber::new(3), data, PageState::Clean);

    assert_eq!(page.number().value(), 3);
    assert_eq!(page.data().as_slice(), &[1, 2, 3, 4]);
    assert!(page.is_clean());
}

#[test]
fn test_data_mut_marks_dirty() {
    let mut page = Page::new(PageNumber::new(0), vec![0u8; 4], PageState::Clean);
    assert!(page.is_clean());

    let data = page.data_mut();
    data[0] = 42;

    assert!(page.is_dirty());
    assert_eq!(page.data()[0], 42);
}

#[test]
fn test_data_mut_no_dirty() {
    let mut page = Page::new(PageNumber::new(0), vec![0u8; 4], PageState::Clean);
    assert!(page.is_clean());

    let data = page.data_mut_no_dirty();
    data[0] = 42;

    assert!(page.is_clean());
    assert_eq!(page.data()[0], 42);
}

#[test]
fn test_mark_dirty_and_clean() {
    let mut page = Page::new(PageNumber::new(0), vec![0u8; 4], PageState::Clean);

    page.mark_dirty();
    assert!(page.is_dirty());

    page.mark_clean();
    assert!(page.is_clean());
}

#[test]
fn test_copy_from_slice() {
    let mut page = Page::new(PageNumber::new(0), vec![0u8; 4], PageState::Clean);

    let source = vec![1, 2, 3, 4];
    let copied = page.copy_from_slice(&source);

    assert_eq!(copied, 4);
    assert_eq!(page.data().as_slice(), &[1, 2, 3, 4]);
    assert!(page.is_dirty());
}

#[test]
fn test_copy_to_slice() {
    let page = Page::new(PageNumber::new(0), vec![1, 2, 3, 4], PageState::Clean);

    let mut dest = vec![0u8; 4];
    let copied = page.copy_to_slice(&mut dest);

    assert_eq!(copied, 4);
    assert_eq!(dest, [1, 2, 3, 4]);
}

#[test]
fn test_partial_copy() {
    let mut page = Page::new(PageNumber::new(0), vec![0u8; 4], PageState::Clean);

    let source = vec![1, 2];
    let copied = page.copy_from_slice(&source);

    assert_eq!(copied, 2);
    assert_eq!(page.data().as_slice(), &[1, 2, 0, 0]);
}

#[test]
fn test_page_state_checks() {
    let clean = PageState::Clean;
    assert!(clean.is_clean());
    assert!(!clean.is_dirty());

    let dirty = PageState::Dirty;
    assert!(dirty.is_dirty());
    assert!(!dirty.is_clean());
}

#[test]
fn test_page_state_default() {
    assert_eq!(PageState::default(), PageState::Clean);
}

#[test]
fn test_dirty_page_conflict_display() {
    let error: DomainError<std::io::Error> = DomainError::DirtyPageConflict {
        current: PageNumber::new(5),
        requested: PageNumber::new(10),
    };

    let msg = error.display_string();
    assert!(msg.contains("Page(5)"));
    assert!(msg.contains("Page(10)"));
    assert!(msg.contains("dirty"));
}

#[test]
fn test_no_page_loaded_display() {
    let error: DomainError<std::io::Error> = DomainError::NoPageLoaded;
    let msg = error.display_string();
    assert!(msg.contains("No page"));
}

#[test]
fn test_storage_error_conversion() {
    let io_error = std::io::Error::new(std::io::ErrorKind::Other, "test error");
    let domain_error: DomainError<std::io::Error> = DomainError::Storage(io_error);

    match domain_error {
        DomainError::Storage(_) => {},
        _ => panic!("Expected Storage variant"),
    }
}

#[test]
fn test_block_address_creation() {
    let addr = BlockAddress::new(100);
    assert_eq!(addr.value(), 100);
}

#[test]
fn test_block_address_add() {
    let addr = BlockAddress::new(10);
    let new_addr = addr.add(5);
    assert_eq!(new_addr.value(), 15);

    let max_addr = BlockAddress::new(u32::MAX);
    assert_eq!(max_addr.add(1).value(), u32::MAX);
}

#[test]
fn test_block_address_offset() {
    let addr1 = BlockAddress::new(100);
    let addr2 = BlockAddress::new(50);
    assert_eq!(addr1.offset_from(addr2), 50);
    assert_eq!(addr2.offset_from(addr1), 0);
}

#[test]
fn test_block_address_display() {
    let addr = BlockAddress::new(512);
    assert_eq!(addr.display_string(), "Block(512)");
}

#[test]
fn test_page_config_creation() {
    let config = PageConfig::<512>::new(4096, 8);
    assert_eq!(config.page_size(), 4096);
    assert_eq!(config.blocks_per_page(), 8);
    assert_eq!(config.block_size(), 512);
}

#[test]
fn test_page_config_from_page_size() {
    let config = PageConfig::<512>::from_page_size(4096).unwrap();
    assert_eq!(config.page_size(), 4096);
    assert_eq!(config.blocks_per_page(), 8);
}

#[test]
fn test_page_config_invalid_page_size() {
    let result = PageConfig::<512>::from_page_size(4000);
    assert!(result.is_err());
}

#[test]
fn test_page_to_block_conversion() {
    let config = PageConfig::<512>::new(4096, 8);
    let page = PageNumber::new(2);
    let block = config.page_to_block(page);
    assert_eq!(block.value(), 16);
}

#[test]
fn test_block_to_page_conversion() {
    let config = PageConfig::<512>::new(4096, 8);
    let block = BlockAddress::new(16);
    let page = config.block_to_page(block);
    assert_eq!(page.value(), 2);
}

#[test]
fn test_byte_offset_to_page() {
    let config = PageConfig::<512>::new(4096, 8);

    let (page, offset) = config.byte_offset_to_page(0);
    assert_eq!(page.value(), 0);
    assert_eq!(offset, 0);

    let (page, offset) = config.byte_offset_to_page(4096);
    assert_eq!(page.value(), 1);
    assert_eq!(offset, 0);

    let (page, offset) = config.byte_offset_to_page(5000);
    assert_eq!(page.value(), 1);
    assert_eq!(offset, 904);
}

#[test]
fn test_page_config_4096_block_size() {
    let config = PageConfig::<4096>::new(4096, 1);
    assert_eq!(config.page_size(), 4096);
    assert_eq!(config.blocks_per_page(), 1);
    assert_eq!(config.block_size(), 4096);
}

#[test]
fn test_page_config_large_blocks() {
    let config = PageConfig::<{ 128 * 1024 }>::new(128 * 1024, 1);
    assert_eq!(config.page_size(), 128 * 1024);
    assert_eq!(config.blocks_per_page(), 1);
    assert_eq!(config.block_size(), 128 * 1024);
}

#[test]
fn test_page_number_creation() {
    let page = PageNumber::new(42);
    assert_eq!(page.value(), 42);
}

#[test]
fn test_page_number_next() {
    let page = PageNumber::new(0);
    assert_eq!(page.next().value(), 1);

    let max_page = PageNumber::new(u32::MAX);
    assert_eq!(max_page.next().value(), u32::MAX);
}

#[test]
fn test_page_number_prev() {
    let page = PageNumber::new(1);
    assert_eq!(page.prev(), Some(PageNumber::new(0)));

    let first_page = PageNumber::new(0);
    assert_eq!(first_page.prev(), None);
}

#[test]
fn test_page_number_display() {
    let page = PageNumber::new(123);
    assert_eq!(page.display_string(), "Page(123)");
}

#[test]
fn test_load_page() {
    let storage = BlockDevice::new(512, 64);
    let config = PageConfig::<512>::new(4096, 8);
    let mut buffer = PageBuffer::new(storage, config);

    buffer.load(PageNumber::new(0)).unwrap();
    let page = buffer.current().unwrap();
    assert_eq!(page.number().value(), 0);
    assert!(page.is_clean());
}

#[test]
fn test_dirty_page_conflict() {
    let storage = BlockDevice::new(512, 64);
    let config = PageConfig::<512>::new(4096, 8);
    let mut buffer = PageBuffer::new(storage, config);

    buffer.load(PageNumber::new(0)).unwrap();
    buffer.modify(0, &vec![42u8]).unwrap();

    let result = buffer.load(PageNumber::new(1));
    assert!(matches!(result, Err(DomainError::DirtyPageConflict { .. })));
    // The held page is still page 0, untouched.
    let held = buffer.current().unwrap();
    assert_eq!(held.number().value(), 0);
    assert_eq!(held.data()[0], 42);
    assert!(held.is_dirty());
}

#[test]
fn test_modify_and_flush() {
    let storage = BlockDevice::new(512, 64);
    let config = PageConfig::<512>::new(4096, 8);
    let mut buffer = PageBuffer::new(storage, config);

    buffer.load(PageNumber::new(0)).unwrap();
    buffer.modify(0, &vec![42u8]).unwrap();

    assert!(buffer.current().unwrap().is_dirty());

    buffer.flush().unwrap();

    assert!(buffer.current().unwrap().is_clean());
}

#[test]
fn test_load_same_page_twice() {
    let storage = BlockDevice::new(512, 64);
    let config = PageConfig::<512>::new(4096, 8);
    let mut buffer = PageBuffer::new(storage, config);

    buffer.load(PageNumber::new(0)).unwrap();
    buffer.load(PageNumber::new(0)).unwrap();

    let page = buffer.current().unwrap();
    assert_eq!(page.number().value(), 0);
}

#[test]
fn test_clear() {
    let storage = BlockDevice::new(512, 64);
    let config = PageConfig::<512>::new(4096, 8);
    let mut buffer = PageBuffer::new(storage, config);

    buffer.load(PageNumber::new(0)).unwrap();
    buffer.clear();

    assert!(buffer.current().is_err());
}

#[test]
fn test_page_buffer_round_trip_through_storage() {
    let storage = BlockDevice::new(512, 64);
    let config = PageConfig::<512>::new(4096, 8);
    let mut buffer = PageBuffer::new(storage, config);

    buffer.load(PageNumber::new(2)).unwrap();
    buffer.modify(10, &vec![7u8, 8, 9]).unwrap();
    buffer.flush().unwrap();
    buffer.clear();

    buffer.load(PageNumber::new(2)).unwrap();
    let page = buffer.current().unwrap();
    assert_eq!(page.data()[10], 7);
    assert_eq!(page.data()[11], 8);
    assert_eq!(page.data()[12], 9);
}

#[test]
fn load_beyond_device_is_storage_error() {
    let storage = BlockDevice::new(512, 8); // one page of room only
    let config = PageConfig::<512>::new(4096, 8);
    let mut buffer = PageBuffer::new(storage, config);
    assert!(matches!(
        buffer.load(PageNumber::new(5)),
        Err(DomainError::Storage(_))
    ));
}

#[test]
fn page_stream_read_write_seek() {
    let device = BlockDevice::new(512, 64);
    let mut stream = HeapPageStream::new(device, 4096).unwrap();
    assert_eq!(stream.position(), 0);
    assert_eq!(stream.page_size(), 4096);

    stream.write(&b"hello stream".to_vec()).unwrap();
    assert_eq!(stream.position(), 12);

    stream.seek(SeekFrom::Start(6)).unwrap();
    let tail = stream.read(6).unwrap();
    assert_eq!(tail, b"stream".to_vec());

    // Crossing a page boundary works byte for byte.
    stream.seek(SeekFrom::Start(4090)).unwrap();
    stream.write(&vec![0x5Au8; 12]).unwrap();
    stream.seek(SeekFrom::Start(4090)).unwrap();
    let back = stream.read(12).unwrap();
    assert_eq!(back, vec![0x5Au8; 12]);

    assert!(matches!(
        stream.seek(SeekFrom::Current(-100000)),
        Err(StreamError::InvalidSeek)
    ));
}
